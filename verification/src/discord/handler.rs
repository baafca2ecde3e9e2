//! The decisions of the identity verification flow: which message starts
//! it, who may start it, what each button leads to and what a submitted form
//! is answered. Talking to Discord is left to the caller.
use vstd::prelude::*;
use crate::text::{
    split_on, split_chars, chars_of, str_eq, starts_with, starts_with_chars, push_str,
    string_from_chars, extend_chars, decimal, u64_to_chars, lemma_split_on_len,
};
use crate::config::AppConfig;
use crate::discord::forms::{
    role_label, role_label_spec, confirm_button_id, build_role_modal, role_form_spec, form_view,
    ModalForm,
};
use crate::discord::profile::{compute_binding, binding_spec, binding_view, pairs_view, BindingResult};

verus! {

/// The message that posts the setup panel.
pub const SETUP_COMMAND: &'static str = "!setup class_info";

/// The answer to a cancelled choice.
pub const CANCELLED_TEXT: &'static str = "操作已取消";

/// The answer to a form that failed its checks.
pub const BINDING_FAILED_TEXT: &'static str = "學號/姓名驗證失敗，非本班學生或請在輸入一遍";

/// The handler of the verification flow.
pub struct Handler;

/// The part of an interaction id after its first `:` and before the next one.
pub open spec fn second_segment(s: Seq<char>) -> Seq<char> {
    let parts = split_on(s, ':');
    if parts.len() > 1 {
        parts[1]
    } else {
        seq![]
    }
}

/// The identity named in an interaction id (`setup:local` → `local`).
pub fn id_segment(custom_id: &str) -> (r: String)
    ensures
        r@ == second_segment(custom_id@),
{
    let chars = chars_of(custom_id);
    let parts = split_chars(chars.as_slice(), ':');
    proof {
        lemma_split_on_len(custom_id@, ':');
    }
    if parts.len() > 1 {
        string_from_chars(parts[1].as_slice())
    } else {
        String::new()
    }
}

/// The question that asks to confirm an identity.
pub open spec fn confirm_prompt_spec(role_type: Seq<char>) -> Seq<char> {
    "您目前選擇的是 **"@ + role_label_spec(role_type) + "**，請確認。本操作完成後將無法反悔。"@
}

pub fn confirm_prompt(role_type: &str) -> (r: String)
    ensures
        r@ == confirm_prompt_spec(role_type@),
{
    let mut out: Vec<char> = Vec::new();
    push_str(&mut out, "您目前選擇的是 **");
    push_str(&mut out, role_label(role_type));
    push_str(&mut out, "**，請確認。本操作完成後將無法反悔。");
    string_from_chars(out.as_slice())
}

/// What a button press leads to.
pub enum ComponentAction {
    /// The panel is cleared with [`CANCELLED_TEXT`].
    Cancel,
    /// The member is asked, privately, to confirm the identity.
    Confirm { role_type: String, content: String, confirm_id: String },
    /// The member becomes a guest at once, with these roles.
    Guest { roles: Vec<u64> },
    /// The form of the identity opens.
    OpenForm(ModalForm),
    /// Nothing happens.
    Ignore,
}

/// The action a button with the given id leads to.
pub open spec fn component_action_matches(
    a: ComponentAction,
    custom_id: Seq<char>,
    verified_role: u64,
    guest_role: u64,
) -> bool {
    let role = second_segment(custom_id);
    if starts_with(custom_id, "setup:"@) {
        if role == "cancel"@ {
            a is Cancel
        } else {
            match a {
                ComponentAction::Confirm { role_type, content, confirm_id } => role_type@ == role
                    && content@ == confirm_prompt_spec(role) && confirm_id@ == "confirm:"@ + role,
                _ => false,
            }
        }
    } else if starts_with(custom_id, "confirm:"@) {
        if role == "guest"@ {
            match a {
                ComponentAction::Guest { roles } => roles@ == seq![verified_role, guest_role],
                _ => false,
            }
        } else {
            match role_form_spec(role) {
                Some(f) => match a {
                    ComponentAction::OpenForm(form) => form_view(form) == f,
                    _ => false,
                },
                None => a is Ignore,
            }
        }
    } else {
        a is Ignore
    }
}

/// The member's report after a profile update: the nickname line, one line
/// per role that could not be given, and the closing line.
pub open spec fn role_failures_text(results: Seq<(u64, bool)>) -> Seq<char>
    decreases results.len(),
{
    if results.len() == 0 {
        seq![]
    } else {
        role_failures_text(results.drop_last()) + if results.last().1 {
            seq![]
        } else {
            "\n[錯誤] 身分組 "@ + decimal(results.last().0 as nat) + " 分配失敗"@
        }
    }
}

pub open spec fn profile_report_spec(
    nickname: Seq<char>,
    nickname_ok: bool,
    results: Seq<(u64, bool)>,
) -> Seq<char> {
    (if nickname_ok {
        "\n[成功] 暱稱已更新為: "@ + nickname
    } else {
        "\n[錯誤] 暱稱修改失敗"@
    }) + role_failures_text(results) + "\n[成功] 身分組分配完成"@
}

/// The report of a profile update, given whether the nickname was set and,
/// for each role in the order given, whether it was added.
pub fn profile_update_report(nickname: &str, nickname_ok: bool, role_results: &Vec<(u64, bool)>) -> (r:
    String)
    ensures
        r@ == profile_report_spec(nickname@, nickname_ok, role_results@),
{
    let mut out: Vec<char> = Vec::new();
    if nickname_ok {
        push_str(&mut out, "\n[成功] 暱稱已更新為: ");
        push_str(&mut out, nickname);
    } else {
        push_str(&mut out, "\n[錯誤] 暱稱修改失敗");
    }
    let ghost head = out@;
    let mut i: usize = 0;
    while i < role_results.len()
        invariant
            i <= role_results@.len(),
            out@ == head + role_failures_text(role_results@.take(i as int)),
        decreases role_results@.len() - i,
    {
        assert(role_results@.take(i + 1).drop_last() =~= role_results@.take(i as int));
        let (role_id, ok) = role_results[i];
        if !ok {
            push_str(&mut out, "\n[錯誤] 身分組 ");
            let digits = u64_to_chars(role_id);
            extend_chars(&mut out, digits.as_slice());
            push_str(&mut out, " 分配失敗");
        }
        i = i + 1;
    }
    assert(role_results@.take(role_results@.len() as int) =~= role_results@);
    push_str(&mut out, "\n[成功] 身分組分配完成");
    string_from_chars(out.as_slice())
}

/// The answer to a guest verification.
pub fn guest_reply(report: &str) -> (r: String)
    ensures
        r@ == "已完成路人驗證"@ + report@,
{
    let mut out: Vec<char> = Vec::new();
    push_str(&mut out, "已完成路人驗證");
    push_str(&mut out, report);
    string_from_chars(out.as_slice())
}

/// The answer to a form that passed.
pub fn binding_reply(report: &str) -> (r: String)
    ensures
        r@ == "資料綁定完成"@ + report@,
{
    let mut out: Vec<char> = Vec::new();
    push_str(&mut out, "資料綁定完成");
    push_str(&mut out, report);
    string_from_chars(out.as_slice())
}

pub open spec fn has_any_role(member_roles: Seq<u64>, admin_roles: Seq<u64>) -> bool {
    exists|i: int| 0 <= i < admin_roles.len() && member_roles.contains(#[trigger] admin_roles[i])
}

impl Handler {
    /// Whether a message starts the setup: it is exactly [`SETUP_COMMAND`].
    pub fn is_setup_command(&self, content: &str) -> (r: bool)
        ensures
            r == (content@ == SETUP_COMMAND@),
    {
        str_eq(content, SETUP_COMMAND)
    }

    /// Whether the author may post the setup panel: an administrator or
    /// server manager in the channel, or a holder of a configured admin role.
    pub fn is_admin(&self, has_admin_permission: bool, member_roles: &Vec<u64>, admin_roles: &Vec<
        u64,
    >) -> (r: bool)
        ensures
            r == (has_admin_permission || has_any_role(member_roles@, admin_roles@)),
    {
        if has_admin_permission {
            return true;
        }
        let mut i: usize = 0;
        while i < admin_roles.len()
            invariant
                i <= admin_roles@.len(),
                forall|k: int| 0 <= k < i ==> !member_roles@.contains(#[trigger] admin_roles@[k]),
            decreases admin_roles@.len() - i,
        {
            let role = admin_roles[i];
            let mut j: usize = 0;
            while j < member_roles.len()
                invariant
                    i < admin_roles@.len(),
                    role == admin_roles@[i as int],
                    j <= member_roles@.len(),
                    forall|m: int| 0 <= m < j ==> member_roles@[m] != role,
                decreases member_roles@.len() - j,
            {
                if member_roles[j] == role {
                    assert(member_roles@[j as int] == admin_roles@[i as int]);
                    assert(member_roles@.contains(admin_roles@[i as int]));
                    return true;
                }
                j = j + 1;
            }
            assert(!member_roles@.contains(admin_roles@[i as int]));
            i = i + 1;
        }
        false
    }

    /// What a button press leads to.
    pub fn component_action(&self, custom_id: &str, config: &AppConfig) -> (r: ComponentAction)
        ensures
            component_action_matches(
                r,
                custom_id@,
                config.roles.verified_role,
                config.roles.guest_role,
            ),
    {
        let chars = chars_of(custom_id);
        let role = id_segment(custom_id);
        let setup: Vec<char> = chars_of("setup:");
        let confirm: Vec<char> = chars_of("confirm:");
        if starts_with_chars(chars.as_slice(), setup.as_slice()) {
            if str_eq(role.as_str(), "cancel") {
                return ComponentAction::Cancel;
            }
            let content = confirm_prompt(role.as_str());
            let confirm_id = confirm_button_id(role.as_str());
            return ComponentAction::Confirm { role_type: role, content, confirm_id };
        }
        if !starts_with_chars(chars.as_slice(), confirm.as_slice()) {
            return ComponentAction::Ignore;
        }
        if str_eq(role.as_str(), "guest") {
            let roles = vec![config.roles.verified_role, config.roles.guest_role];
            assert(roles@ =~= seq![config.roles.verified_role, config.roles.guest_role]);
            return ComponentAction::Guest { roles };
        }
        match build_role_modal(role.as_str()) {
            Some(form) => ComponentAction::OpenForm(form),
            None => ComponentAction::Ignore,
        }
    }

    /// The binding a submitted form gives; the identity is named in the
    /// form's id (`modal:local` → `local`).
    pub fn modal_binding(
        &self,
        custom_id: &str,
        inputs: &Vec<(String, String)>,
        display_name: &str,
        config: &AppConfig,
    ) -> (r: BindingResult)
        ensures
            binding_view(r) == binding_spec(
                second_segment(custom_id@),
                pairs_view(inputs@),
                display_name@,
                pairs_view(config.class_students@),
                config.roles.verified_role,
                config.roles.local_role,
                config.roles.senior_role,
                config.roles.teacher_role,
            ),
    {
        let role = id_segment(custom_id);
        compute_binding(role.as_str(), inputs, display_name, config)
    }
}

} // verus!
