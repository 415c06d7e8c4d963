use work_review::avatar::{
    followup_project_key, gnome_avatar_extension_needs_relogin, gnome_install_message,
    has_open_followup, lists_avatar_extension, parse_followup_action, remember_followup,
    AvatarFollowupAction, AvatarFollowupActionInput, followup_reply,
};
use work_review::json::{json_as_array, json_as_str, json_field, Json};
use work_review::recording::{
    get_recording_state, ocr_install_guide, pause_recording, resume_recording, start_recording,
    stop_recording, RecordingState,
};

fn input(project: &str, title: &str, action: &str) -> AvatarFollowupActionInput {
    AvatarFollowupActionInput {
        action: action.to_string(),
        project_key: project.to_string(),
        title: title.to_string(),
        date: " 2026-06-01 ".to_string(),
        source_app: "VS Code".to_string(),
        source_title: "main.rs".to_string(),
        persona: "cat".to_string(),
    }
}

#[test]
fn followup_actions() {
    assert_eq!(parse_followup_action(" remember "), AvatarFollowupAction::Remember);
    assert_eq!(parse_followup_action("timeline"), AvatarFollowupAction::Timeline);
    assert_eq!(parse_followup_action("whatever"), AvatarFollowupAction::Dismiss);
    assert_eq!(followup_project_key(&input("  ", "t", "focus")), Err("缺少项目标识，无法处理桌宠待跟进动作".to_string()));
    assert_eq!(followup_project_key(&input(" p1 ", "t", "focus")), Ok("p1".to_string()));
}

#[test]
fn remembering_twice_adds_once() {
    let mut items = vec![];
    let inp = input("p1", "  write tests ", "remember");
    assert!(remember_followup(&mut items, "p1", &inp));
    assert_eq!(items.len(), 1);
    assert_eq!(items[0].title, "write tests");
    assert_eq!(items[0].date, "2026-06-01");
    assert_eq!(items[0].status, "open");
    assert_eq!(items[0].id.len(), 36);
    assert!(items[0].created_at > 1_600_000_000);
    assert!(has_open_followup(&items, "p1", "write tests"));
    assert!(!remember_followup(&mut items, "p1", &inp));
    assert_eq!(items.len(), 1);
    assert!(remember_followup(&mut items, "p2", &inp));
    assert_eq!(items.len(), 2);
}

#[test]
fn gnome_extension_checks() {
    assert!(gnome_avatar_extension_needs_relogin(true, true, true, "x11"));
    assert!(!gnome_avatar_extension_needs_relogin(true, true, true, "gnome-shell-dbus"));
    assert!(!gnome_avatar_extension_needs_relogin(false, true, true, "x11"));
    assert!(lists_avatar_extension("a@b\n  work-review-avatar-input@workreview.app \r\nc"));
    assert!(!lists_avatar_extension("work-review-avatar-input@workreview.app.old\n"));
    assert!(!lists_avatar_extension(""));
    assert_eq!(gnome_install_message(false, true, "wayland", "gnome"), "GNOME 桌宠扩展已安装并启用（wayland / gnome）");
    assert!(gnome_install_message(true, true, "a", "b").contains("重新登录"));
}

#[test]
fn recording_state_transitions() {
    let mut s = RecordingState { is_recording: false, is_paused: false };
    start_recording(&mut s);
    assert_eq!(get_recording_state(&s), (true, false));
    pause_recording(&mut s);
    assert_eq!(get_recording_state(&s), (true, true));
    resume_recording(&mut s);
    assert_eq!(get_recording_state(&s), (true, false));
    stop_recording(&mut s);
    assert_eq!(get_recording_state(&s), (false, false));
}

#[test]
fn ocr_guides() {
    let w = ocr_install_guide("windows");
    assert_eq!(w.platform, "Windows");
    assert_eq!(w.steps.len(), 7);
    assert!(w.has_builtin_fallback);
    let l = ocr_install_guide("linux");
    assert_eq!(l.platform, "linux");
    assert_eq!(l.install_command, "pip install paddlepaddle paddleocr");
    assert!(!l.has_builtin_fallback);
}

#[test]
fn followup_reply_echoes_action_and_key() {
    let r = followup_reply("remember", "proj");
    assert!(matches!(json_field(Some(&r), "ok"), Some(Json::Bool(true))));
    assert_eq!(json_as_str(json_field(Some(&r), "action")), Some("remember"));
    assert_eq!(json_as_str(json_field(Some(&r), "projectKey")), Some("proj"));
}

#[test]
fn ocr_guide_json_form() {
    let g = ocr_install_guide("linux").to_json();
    assert_eq!(json_as_str(json_field(Some(&g), "platform")), Some("linux"));
    assert_eq!(json_as_array(json_field(Some(&g), "steps")).unwrap().len(), 3);
    assert_eq!(json_as_str(json_field(Some(&g), "install_command")), Some("pip install paddlepaddle paddleocr"));
    assert!(matches!(json_field(Some(&g), "has_builtin_fallback"), Some(Json::Bool(false))));
}

#[test]
fn ocr_availability_and_capture_decisions() {
    let v = work_review::recording::ocr_availability(true, "pip install paddleocr", "linux");
    assert!(matches!(json_field(Some(&v), "paddle_ocr_available"), Some(Json::Bool(true))));
    assert_eq!(json_as_str(json_field(Some(&v), "install_command")), Some("pip install paddleocr"));
    assert_eq!(json_as_str(json_field(Some(&v), "platform")), Some("linux"));
    assert!(work_review::recording::capture_without_window(true, true).is_ok());
    assert_eq!(
        work_review::recording::capture_without_window(false, false),
        Err("获取当前活动窗口失败".to_string())
    );
    assert_eq!(
        work_review::recording::capture_labels(None),
        ("Wayland Session".to_string(), "Wayland screenshot".to_string())
    );
    assert_eq!(work_review::recording::capture_labels(Some(("Code", "main.rs"))), ("Code".to_string(), "main.rs".to_string()));
}
