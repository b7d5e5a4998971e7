use nuphus_core::preferences::{ProjectBookmark, UserPreferences};
use nuphus_core::state::{new_shared_signals, SharedSignals, SignalState};

type State = SignalState<bool, String, String>;

#[test]
fn new_state_is_empty() {
    let state = State::default();
    assert!(state.pause_decisions.is_empty());
    assert!(state.pause_action_id.is_none());
    assert!(state.append_queue.is_empty());
    assert!(state.pending_notices.is_empty());
    assert!(state.security.security_results.is_empty());
    assert!(state.security.session_approved_tools.is_empty());
    assert!(state.security.pending_approvals.is_empty());
    assert!(state.security.pending_inputs.is_empty());
    assert!(state.active_workflow_id.is_none());
}

#[test]
fn add_notice_appends_last() {
    let mut state = State::default();
    state.append_queue.push("msg".to_string());
    state.add_notice("first".to_string());
    state.add_notice("second".to_string());
    assert_eq!(state.pending_notices, vec!["first".to_string(), "second".to_string()]);
    assert_eq!(state.append_queue, vec!["msg".to_string()]);
}

#[test]
fn notices_reach_shared_state() {
    let signals: SharedSignals<bool, String, String> = new_shared_signals();
    assert!(signals.read().unwrap().pending_notices.is_empty());
    signals.write().unwrap().add_notice("project dir changed".to_string());
    signals.write().unwrap().add_notice("again".to_string());
    let guard = signals.read().unwrap();
    assert_eq!(guard.pending_notices, vec!["project dir changed".to_string(), "again".to_string()]);
}

#[test]
fn handles_share_one_state() {
    let signals: SharedSignals<bool, String, String> = new_shared_signals();
    let other = signals.clone();
    other.write().unwrap().active_workflow_id = Some("wf-1".to_string());
    assert_eq!(signals.read().unwrap().active_workflow_id.as_deref(), Some("wf-1"));
    let separate: SharedSignals<bool, String, String> = new_shared_signals();
    assert!(separate.read().unwrap().active_workflow_id.is_none());
    assert!(separate.read().unwrap().pending_notices.is_empty());
}

#[test]
fn default_preferences() {
    let prefs = UserPreferences::default();
    assert_eq!(prefs.language, "zh-CN");
    assert_eq!(prefs.project_dir, "");
    assert!(prefs.project_bookmarks.is_empty());
    assert!(prefs.browser_cdp_url.is_none());
    assert!(prefs.browser_identity.is_none());
}

#[test]
fn bookmark_equality_by_fields() {
    let a = ProjectBookmark { name: "app".to_string(), path: "/w/app".to_string() };
    let b = ProjectBookmark { name: "app".to_string(), path: "/w/app".to_string() };
    let c = ProjectBookmark { name: "app".to_string(), path: "/w/other".to_string() };
    let d = ProjectBookmark { name: "other".to_string(), path: "/w/app".to_string() };
    assert!(a == b);
    assert!(a != c);
    assert!(a != d);
}
