use herdr_palette::custom::{Placement, UserCommand};
use herdr_palette::launch::open_args;
use herdr_palette::origin::Origin;


fn origin() -> Origin {
    Origin {
        pane_id: "w1:p1".to_string(),
        tab_id: "w1:t2".to_string(),
        workspace_id: "w1".to_string(),
        cwd: String::new(),
    }
}

fn command(placement: Placement) -> UserCommand {
    UserCommand {
        id: "x".to_string(),
        title: "X".to_string(),
        argv: vec!["true".to_string()],
        placement,
        hold: false,
        cwd: None,
        input: None,
    }
}

fn args_for(placement: Placement) -> Vec<String> {
    open_args(&command(placement), "[\"true\"]", &origin(), "vjeantet.palette")
}

// herdr refuses a split or zoomed plugin pane that also names a workspace,
// and a tab pane that names a target pane. Passing both flags failed every
// launch with invalid_params.
#[test]
fn a_split_targets_the_origin_pane_and_never_names_a_workspace() {
    let args = args_for(Placement::Split);
    assert!(args.windows(2).any(|w| w == ["--target-pane", "w1:p1"]));
    assert!(!args.iter().any(|arg| arg == "--workspace"));
}

#[test]
fn a_zoomed_pane_targets_the_origin_pane_and_never_names_a_workspace() {
    let args = args_for(Placement::Zoomed);
    assert!(args.windows(2).any(|w| w == ["--target-pane", "w1:p1"]));
    assert!(!args.iter().any(|arg| arg == "--workspace"));
}

#[test]
fn a_tab_names_the_origin_workspace_and_never_targets_a_pane() {
    let args = args_for(Placement::Tab);
    assert!(args.windows(2).any(|w| w == ["--workspace", "w1"]));
    assert!(!args.iter().any(|arg| arg == "--target-pane"));
}

#[test]
fn no_placement_ever_asks_for_a_split_direction() {
    for placement in [Placement::Split, Placement::Tab, Placement::Zoomed] {
        assert!(!args_for(placement).iter().any(|arg| arg == "--direction"));
    }
}

#[test]
fn the_placement_travels_as_declared() {
    assert!(args_for(Placement::Zoomed)
        .windows(2)
        .any(|w| w == ["--placement", "zoomed"]));
}

#[test]
fn the_argv_travels_as_one_json_environment_variable() {
    let args = args_for(Placement::Split);
    assert!(args.iter().any(|arg| arg == "PALETTE_RUN_ARGV=[\"true\"]"));
}

#[test]
fn a_declared_cwd_travels_instead_of_the_origin_one() {
    let mut command = command(Placement::Split);
    command.cwd = Some("/".to_string());
    let mut origin = origin();
    origin.cwd = "/usr".to_string();
    let args = open_args(&command, "[]", &origin, "vjeantet.palette");
    assert!(args.windows(2).any(|w| w == ["--cwd", "/"]));
}

#[test]
fn an_entry_without_a_cwd_runs_where_the_origin_pane_was() {
    let mut origin = origin();
    origin.cwd = "/usr".to_string();
    let args = open_args(&command(Placement::Split), "[]", &origin, "vjeantet.palette");
    assert!(args.windows(2).any(|w| w == ["--cwd", "/usr"]));
}

#[test]
fn an_unusable_origin_cwd_leaves_the_flag_out() {
    let mut origin = origin();
    origin.cwd = "/no/such/directory/here".to_string();
    let args = open_args(&command(Placement::Split), "[]", &origin, "vjeantet.palette");
    assert!(!args.iter().any(|arg| arg == "--cwd"));
}

#[test]
fn hold_is_sent_only_when_declared() {
    let args = args_for(Placement::Split);
    assert!(!args.iter().any(|arg| arg.starts_with("PALETTE_RUN_HOLD")));
    let mut held = command(Placement::Split);
    held.hold = true;
    let args = open_args(&held, "[]", &origin(), "vjeantet.palette");
    assert!(args.iter().any(|arg| arg == "PALETTE_RUN_HOLD=1"));
}

