use dsh_tui::bus::{permission_ask_default_sel, permission_ask_empty_outcome, PermissionAskOption, PermissionAskReply};

#[test]
fn empty_permission_options_cancel() {
    assert_eq!(
        permission_ask_empty_outcome(&[]),
        Some(PermissionAskReply::Cancelled)
    );
    assert_eq!(
        permission_ask_empty_outcome(&[PermissionAskOption {
            option_id: "allow".into(),
            kind: "allow_once".into(),
            name: "Allow once".into(),
        }]),
        None
    );
}

#[test]
fn permission_ask_defaults_to_allow_once() {
    let options = [
        PermissionAskOption {
            option_id: "reject".into(),
            kind: "reject_once".into(),
            name: "Reject".into(),
        },
        PermissionAskOption {
            option_id: "allow".into(),
            kind: "allow_once".into(),
            name: "Allow once".into(),
        },
    ];
    assert_eq!(permission_ask_default_sel(&options), 1);
    assert_eq!(permission_ask_default_sel(&options[..1]), 0);
}

#[test]
fn default_selection_picks_the_first_allow_once() {
    let opt = |id: &str, kind: &str| PermissionAskOption {
        option_id: id.into(),
        kind: kind.into(),
        name: id.into(),
    };
    let options = [opt("a", "allow_always"), opt("b", "allow_once"), opt("c", "allow_once")];
    assert_eq!(permission_ask_default_sel(&options), 1);
    assert_eq!(permission_ask_default_sel(&[]), 0);
}
