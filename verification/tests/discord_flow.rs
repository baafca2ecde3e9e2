use class_chat_bot::config::AppConfig;
use class_chat_bot::discord::delivery::{plan_delivery, shape_embed, Route};
use class_chat_bot::discord::forms::{build_role_modal, confirm_button_id, role_label, setup_button_id};
use class_chat_bot::discord::handler::{
    binding_reply, confirm_prompt, guest_reply, id_segment, profile_update_report, ComponentAction,
    Handler, BINDING_FAILED_TEXT, CANCELLED_TEXT,
};
use class_chat_bot::discord::profile::{
    check_student_id, compute_binding, input_value, invalid_binding, MemberIdentity,
};
use class_chat_bot::discord::types::{DiscordDeliveryTarget, DiscordEmbedField, DiscordEmbedPayload};
use class_chat_bot::discord::utils::{
    bad_gateway_from_error, is_missing_target_error, MISSING_TARGET_ERROR,
};

fn pairs(v: &[(&str, &str)]) -> Vec<(String, String)> {
    v.iter().map(|(a, b)| (a.to_string(), b.to_string())).collect()
}

fn config() -> AppConfig {
    let mut cfg = AppConfig::default();
    cfg.roles.verified_role = 1;
    cfg.roles.local_role = 2;
    cfg.roles.senior_role = 3;
    cfg.roles.teacher_role = 4;
    cfg.roles.guest_role = 5;
    cfg.roles.admin_roles = vec![99];
    cfg.class_students = pairs(&[("41012101", "王小明")]);
    cfg
}

#[test]
fn missing_target_error_is_recognised() {
    assert!(is_missing_target_error(&format!("send failed: {}", MISSING_TARGET_ERROR)));
    assert!(!is_missing_target_error("webhook status failed: 500"));
    assert_eq!(bad_gateway_from_error("anything"), 502);
}

#[test]
fn webhook_route_prefers_the_avatar_override() {
    let target = DiscordDeliveryTarget {
        channel_id: 7,
        webhook_url: "https://hook".to_string(),
        webhook_avatar_url: "https://own.png".to_string(),
    };
    match plan_delivery(&target, Some("Bot"), Some("https://over.png")) {
        Ok(Route::Webhook { url, username, avatar_url }) => {
            assert_eq!(url, "https://hook");
            assert_eq!(username.as_deref(), Some("Bot"));
            assert_eq!(avatar_url.as_deref(), Some("https://over.png"));
        }
        _ => panic!("expected a webhook route"),
    }
    match plan_delivery(&target, None, None) {
        Ok(Route::Webhook { avatar_url, username, .. }) => {
            assert_eq!(avatar_url.as_deref(), Some("https://own.png"));
            assert!(username.is_none());
        }
        _ => panic!("expected a webhook route"),
    }
}

#[test]
fn channel_route_and_missing_target() {
    let channel = DiscordDeliveryTarget {
        channel_id: 42,
        webhook_url: String::new(),
        webhook_avatar_url: String::new(),
    };
    assert!(matches!(plan_delivery(&channel, None, None), Ok(Route::Channel(42))));
    let none = DiscordDeliveryTarget {
        channel_id: 0,
        webhook_url: String::new(),
        webhook_avatar_url: String::new(),
    };
    match plan_delivery(&none, None, None) {
        Err(e) => assert_eq!(e, MISSING_TARGET_ERROR),
        Ok(_) => panic!("expected the missing target error"),
    }
}

#[test]
fn embed_shaping_drops_blank_parts() {
    let embed = DiscordEmbedPayload {
        title: "T".to_string(),
        description: "D".to_string(),
        url: "  ".to_string(),
        color: 5,
        fields: vec![DiscordEmbedField { name: "n".to_string(), value: "v".to_string(), inline: true }],
        footer: "time".to_string(),
    };
    let shaped = shape_embed(&embed, Some("  "), &Route::Channel(1));
    assert!(shaped.content.is_none());
    assert!(shaped.url.is_none());
    assert_eq!(shaped.footer.as_deref(), Some("time"));
    assert_eq!(shaped.fields.len(), 1);
    assert_eq!(shaped.fields[0].value, "v");
    let hook = Route::Webhook { url: "u".to_string(), username: None, avatar_url: None };
    let shaped = shape_embed(&embed, Some("  "), &hook);
    assert_eq!(shaped.content.as_deref(), Some("  "));
}

#[test]
fn labels_and_buttons() {
    assert_eq!(role_label("local"), "本班學生");
    assert_eq!(role_label("senior"), "學長姐");
    assert_eq!(role_label("teacher"), "老師");
    assert_eq!(role_label("guest"), "路人");
    assert_eq!(role_label("x"), "未知");
    assert_eq!(confirm_button_id("local"), "confirm:local");
    assert_eq!(setup_button_id("guest"), "setup:guest");
}

#[test]
fn role_forms() {
    let f = build_role_modal("local").unwrap();
    assert_eq!(f.custom_id, "modal:local");
    assert_eq!(f.title, "本班學生驗證");
    assert_eq!(f.inputs.len(), 2);
    assert_eq!(f.inputs[0].custom_id, "sid_input");
    let t = build_role_modal("teacher").unwrap();
    assert_eq!(t.inputs[1].label, "職稱");
    assert!(build_role_modal("guest").is_none());
}

#[test]
fn student_ids() {
    assert!(check_student_id("41012101"));
    assert!(check_student_id("30000200"));
    assert!(!check_student_id("41012301"));
    assert!(!check_student_id("4101210"));
    assert!(!check_student_id("61012101"));
    assert!(!check_student_id("4101210a"));
}

#[test]
fn later_inputs_win_and_are_trimmed() {
    let inputs = pairs(&[("k", "a"), ("k", "  b ")]);
    assert_eq!(input_value(&inputs, "k"), "b");
    assert_eq!(input_value(&inputs, "missing"), "");
}

#[test]
fn local_student_binding() {
    let cfg = config();
    let inputs = pairs(&[("sid_input", " 41012101 "), ("name_input", "王小明")]);
    let b = compute_binding("local", &inputs, "Ming", &cfg);
    assert!(b.valid);
    assert_eq!(b.nickname, "Ming (01)");
    assert_eq!(b.sid, "41012101");
    assert_eq!(b.name, "王小明");
    assert_eq!(b.roles, vec![1, 2]);
}

#[test]
fn local_student_with_wrong_name_is_refused() {
    let cfg = config();
    let inputs = pairs(&[("sid_input", "41012101"), ("name_input", "王大明")]);
    let b = compute_binding("local", &inputs, "Ming", &cfg);
    assert!(!b.valid);
    assert_eq!(b.roles, vec![1]);
    assert_eq!(b.nickname, "");
    let r = invalid_binding(vec![1]);
    assert!(!r.valid);
}

#[test]
fn senior_teacher_and_guest_bindings() {
    let cfg = config();
    let senior = compute_binding(
        "senior",
        &pairs(&[("sid_input", "40911201"), ("name_input", "學長"), ("dept_input", "資工三")]),
        "Sen",
        &cfg,
    );
    assert!(senior.valid);
    assert_eq!(senior.nickname, "[資工三] Sen");
    assert_eq!(senior.roles, vec![1, 3]);
    let bad_senior = compute_binding("senior", &pairs(&[("sid_input", "123")]), "Sen", &cfg);
    assert!(!bad_senior.valid);
    let teacher = compute_binding(
        "teacher",
        &pairs(&[("name_input", "林老師"), ("info_input", "教授"), ("dept_input", "資工")]),
        "Lin",
        &cfg,
    );
    assert_eq!(teacher.nickname, "Lin (教授)");
    assert_eq!(teacher.sid, "T-資工");
    assert_eq!(teacher.roles, vec![1, 4]);
    let other = compute_binding("guest", &Vec::new(), "Guest", &cfg);
    assert!(other.valid);
    assert_eq!(other.nickname, "Guest");
    assert_eq!(other.roles, vec![1]);
}

#[test]
fn stored_identities() {
    assert_eq!(MemberIdentity::from_str("LOCAL"), MemberIdentity::Local);
    assert_eq!(MemberIdentity::from_str("Teacher"), MemberIdentity::Teacher);
    assert_eq!(MemberIdentity::from_str("anything"), MemberIdentity::Guest);
    assert_eq!(MemberIdentity::Senior.as_str(), "senior");
}

#[test]
fn setup_command_and_admins() {
    let h = Handler;
    assert!(h.is_setup_command("!setup class_info"));
    assert!(!h.is_setup_command("!setup class_info "));
    assert!(h.is_admin(true, &vec![], &vec![99]));
    assert!(h.is_admin(false, &vec![3, 99], &vec![99]));
    assert!(!h.is_admin(false, &vec![3], &vec![99]));
}

#[test]
fn button_presses() {
    let h = Handler;
    let cfg = config();
    match h.component_action("setup:local", &cfg) {
        ComponentAction::Confirm { role_type, content, confirm_id } => {
            assert_eq!(role_type, "local");
            assert_eq!(content, "您目前選擇的是 **本班學生**，請確認。本操作完成後將無法反悔。");
            assert_eq!(confirm_id, "confirm:local");
        }
        _ => panic!("expected a confirmation"),
    }
    assert!(matches!(h.component_action("setup:cancel", &cfg), ComponentAction::Cancel));
    match h.component_action("confirm:guest", &cfg) {
        ComponentAction::Guest { roles } => assert_eq!(roles, vec![1, 5]),
        _ => panic!("expected guest roles"),
    }
    match h.component_action("confirm:teacher", &cfg) {
        ComponentAction::OpenForm(f) => assert_eq!(f.custom_id, "modal:teacher"),
        _ => panic!("expected a form"),
    }
    assert!(matches!(h.component_action("confirm:nobody", &cfg), ComponentAction::Ignore));
    assert!(matches!(h.component_action("other", &cfg), ComponentAction::Ignore));
    assert_eq!(CANCELLED_TEXT, "操作已取消");
    assert_eq!(confirm_prompt("zzz"), "您目前選擇的是 **未知**，請確認。本操作完成後將無法反悔。");
}

#[test]
fn modal_submission() {
    let h = Handler;
    let cfg = config();
    assert_eq!(id_segment("modal:local"), "local");
    assert_eq!(id_segment("modal"), "");
    assert_eq!(id_segment("a:b:c"), "b");
    let b = h.modal_binding(
        "modal:local",
        &pairs(&[("sid_input", "41012101"), ("name_input", "王小明")]),
        "Ming",
        &cfg,
    );
    assert!(b.valid);
    assert_eq!(BINDING_FAILED_TEXT, "學號/姓名驗證失敗，非本班學生或請在輸入一遍");
}

#[test]
fn profile_reports() {
    let r = profile_update_report("Ming", true, &vec![(1, true), (2, false)]);
    assert_eq!(r, "\n[成功] 暱稱已更新為: Ming\n[錯誤] 身分組 2 分配失敗\n[成功] 身分組分配完成");
    let r = profile_update_report("Ming", false, &vec![]);
    assert_eq!(r, "\n[錯誤] 暱稱修改失敗\n[成功] 身分組分配完成");
    assert_eq!(guest_reply("!"), "已完成路人驗證!");
    assert_eq!(binding_reply("!"), "資料綁定完成!");
}
