//! Builds the main picker's rows. User rows come first (commands, then
//! prompts, each in the order of the user's file), then catalog rows in
//! catalog order, then plugin action rows, sorted among themselves by label.

use vstd::prelude::*;

use crate::catalog::{Catalog, CommandEntry};
use crate::custom::UserCommand;
use crate::keys::{KeyHints, native_hint};
use crate::prompt::UserPrompt;
use crate::text::concat;
use crate::ui::{Row, RowV, row_views};

verus! {

/// The row of a user command: keyed `user:<id>`, labelled `User: <title>`,
/// no keybinding hint.
pub open spec fn user_row(c: UserCommand) -> RowV {
    RowV { id: "user:"@ + c.id@, label: "User: "@ + c.title@, hint: Seq::empty() }
}

/// The row of a user prompt: keyed `prompt:<id>`, labelled
/// `Prompt: <title>`, no keybinding hint.
pub open spec fn prompt_row(p: UserPrompt) -> RowV {
    RowV { id: "prompt:"@ + p.id@, label: "Prompt: "@ + p.title@, hint: Seq::empty() }
}

/// The row of a catalog command: its id, its title, and its keybinding hint.
pub open spec fn catalog_row(c: CommandEntry, hints: KeyHints) -> RowV {
    RowV {
        id: c.id@,
        label: c.title@,
        hint: native_hint(hints@, c.keys_action.deep_view(), c.key.deep_view()),
    }
}

pub open spec fn user_rows_spec(cs: Seq<UserCommand>) -> Seq<RowV> {
    cs.map_values(|c: UserCommand| user_row(c))
}

pub open spec fn prompt_rows_spec(ps: Seq<UserPrompt>) -> Seq<RowV> {
    ps.map_values(|p: UserPrompt| prompt_row(p))
}

pub open spec fn catalog_rows_spec(cs: Seq<CommandEntry>, hints: KeyHints) -> Seq<RowV> {
    cs.map_values(|c: CommandEntry| catalog_row(c, hints))
}

/// The user's commands as rows, in file order.
pub fn user_rows(commands: &[UserCommand]) -> (r: Vec<Row>)
    ensures
        row_views(r@) == user_rows_spec(commands@),
{
    let mut rows: Vec<Row> = Vec::new();
    let mut i: usize = 0;
    while i < commands.len()
        invariant
            0 <= i <= commands@.len(),
            row_views(rows@) == user_rows_spec(commands@.take(i as int)),
        decreases commands@.len() - i,
    {
        let c = &commands[i];
        let ghost before = row_views(rows@);
        rows.push(Row { id: concat("user:", c.id.as_str()), label: concat("User: ", c.title.as_str()), hint: String::new() });
        assert(row_views(rows@) =~= before.push(user_row(*c)));
        assert(commands@.take(i + 1) =~= commands@.take(i as int).push(*c));
        assert(row_views(rows@) =~= user_rows_spec(commands@.take(i + 1)));
        i += 1;
    }
    assert(commands@.take(commands@.len() as int) =~= commands@);
    rows
}

/// The user's prompts as rows, in file order.
pub fn prompt_rows(prompts: &[UserPrompt]) -> (r: Vec<Row>)
    ensures
        row_views(r@) == prompt_rows_spec(prompts@),
{
    let mut rows: Vec<Row> = Vec::new();
    let mut i: usize = 0;
    while i < prompts.len()
        invariant
            0 <= i <= prompts@.len(),
            row_views(rows@) == prompt_rows_spec(prompts@.take(i as int)),
        decreases prompts@.len() - i,
    {
        let p = &prompts[i];
        let ghost before = row_views(rows@);
        rows.push(Row { id: concat("prompt:", p.id.as_str()), label: concat("Prompt: ", p.title.as_str()), hint: String::new() });
        assert(row_views(rows@) =~= before.push(prompt_row(*p)));
        assert(prompts@.take(i + 1) =~= prompts@.take(i as int).push(*p));
        assert(row_views(rows@) =~= prompt_rows_spec(prompts@.take(i + 1)));
        i += 1;
    }
    assert(prompts@.take(prompts@.len() as int) =~= prompts@);
    rows
}

fn opt_str(o: &Option<String>) -> (r: Option<&str>)
    ensures
        match r {
            Some(s) => o.deep_view() == Some(s@),
            None => o is None,
        },
{
    match o {
        Some(s) => Some(s.as_str()),
        None => None,
    }
}

/// The catalog's commands as rows, in catalog order.
pub fn catalog_rows(catalog: &Catalog, hints: &KeyHints) -> (r: Vec<Row>)
    ensures
        row_views(r@) == catalog_rows_spec(catalog.commands@, *hints),
{
    let commands = &catalog.commands;
    let mut rows: Vec<Row> = Vec::new();
    let mut i: usize = 0;
    while i < commands.len()
        invariant
            0 <= i <= commands@.len(),
            commands == &catalog.commands,
            row_views(rows@) == catalog_rows_spec(commands@.take(i as int), *hints),
        decreases commands@.len() - i,
    {
        let c = &commands[i];
        let hint = hints.native(opt_str(&c.keys_action), opt_str(&c.key));
        let ghost before = row_views(rows@);
        rows.push(Row { id: c.id.clone(), label: c.title.clone(), hint });
        assert(row_views(rows@) =~= before.push(catalog_row(*c, *hints)));
        assert(commands@.take(i + 1) =~= commands@.take(i as int).push(*c));
        assert(row_views(rows@) =~= catalog_rows_spec(commands@.take(i + 1), *hints));
        i += 1;
    }
    assert(commands@.take(commands@.len() as int) =~= commands@);
    rows
}

/// The main picker's rows: user commands, user prompts, catalog commands,
/// then plugin actions, each group kept as given.
pub open spec fn picker_rows_spec(user: Seq<RowV>, prompts: Seq<RowV>, catalog: Seq<RowV>, plugins: Seq<RowV>) -> Seq<RowV> {
    user + prompts + catalog + plugins
}

/// Puts the four groups of rows in picker order.
pub fn picker_rows(user: Vec<Row>, prompts: Vec<Row>, catalog: Vec<Row>, plugins: Vec<Row>) -> (r: Vec<Row>)
    ensures
        row_views(r@) == picker_rows_spec(row_views(user@), row_views(prompts@), row_views(catalog@), row_views(plugins@)),
{
    let mut rows = user;
    let mut prompts = prompts;
    let mut catalog = catalog;
    let mut plugins = plugins;
    let ghost (a, b, c, d) = (rows@, prompts@, catalog@, plugins@);
    rows.append(&mut prompts);
    rows.append(&mut catalog);
    rows.append(&mut plugins);
    assert(rows@ == a + b + c + d);
    assert(row_views(rows@) =~= row_views(a) + row_views(b) + row_views(c) + row_views(d));
    rows
}

/// Entries only add rows: the user's rows come first, and what follows them
/// is exactly the picker without any user entry, so no entry can rename,
/// replace, reorder or hide a catalog command or a plugin action.
pub proof fn lemma_entries_only_add_rows(user: Seq<RowV>, prompts: Seq<RowV>, catalog: Seq<RowV>, plugins: Seq<RowV>)
    ensures
        picker_rows_spec(user, prompts, catalog, plugins).take((user.len() + prompts.len()) as int) == user + prompts,
        picker_rows_spec(user, prompts, catalog, plugins).skip((user.len() + prompts.len()) as int)
            == picker_rows_spec(Seq::empty(), Seq::empty(), catalog, plugins),
{
    let all = picker_rows_spec(user, prompts, catalog, plugins);
    assert(all.take((user.len() + prompts.len()) as int) =~= user + prompts);
    assert(all.skip((user.len() + prompts.len()) as int) =~= picker_rows_spec(Seq::empty(), Seq::empty(), catalog, plugins));
}

} // verus!
