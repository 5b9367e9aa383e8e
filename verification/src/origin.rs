//! Origin context captured server-side by `herdr-palette open` before the
//! popup takes focus, and forwarded through `--env`. The popup process never
//! re-resolves it: by then the answer would describe a later focus.

use vstd::prelude::*;

use crate::fatal::Fatal;

verus! {

#[derive(Debug)]
pub struct Origin {
    pub pane_id: String,
    pub tab_id: String,
    pub workspace_id: String,
    /// May be empty; only validated where it is used.
    pub cwd: String,
}

impl Origin {
    /// The origin from its four captured values. The pane, tab and workspace
    /// ids are required; the working directory may be empty.
    pub fn from_values(pane_id: String, tab_id: String, workspace_id: String, cwd: String) -> (r: Result<Origin, Fatal>)
        ensures
            match r {
                Ok(o) => o.pane_id@ == pane_id@ && o.tab_id@ == tab_id@ && o.workspace_id@
                    == workspace_id@ && o.cwd@ == cwd@ && pane_id@.len() > 0 && tab_id@.len() > 0
                    && workspace_id@.len() > 0,
                Err(f) => (pane_id@.len() == 0 || tab_id@.len() == 0 || workspace_id@.len() == 0)
                    && f.0@
                    == "command-palette: missing origin context (ORIGIN_PANE_ID/ORIGIN_TAB_ID/ORIGIN_WORKSPACE_ID)"@,
            },
    {
        if pane_id.as_str().is_empty() || tab_id.as_str().is_empty() || workspace_id.as_str().is_empty() {
            return Err(
                Fatal::new(
                    "command-palette: missing origin context (ORIGIN_PANE_ID/ORIGIN_TAB_ID/ORIGIN_WORKSPACE_ID)",
                ),
            );
        }
        Ok(Origin { pane_id, tab_id, workspace_id, cwd })
    }
}

} // verus!
