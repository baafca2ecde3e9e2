//! The labels and forms of the identity verification flow.
use vstd::prelude::*;
use crate::text::{str_eq, push_str, string_from_chars};

verus! {

/// The label shown for an identity.
pub open spec fn role_label_spec(role_type: Seq<char>) -> Seq<char> {
    if role_type == "local"@ {
        "本班學生"@
    } else if role_type == "senior"@ {
        "學長姐"@
    } else if role_type == "teacher"@ {
        "老師"@
    } else if role_type == "guest"@ {
        "路人"@
    } else {
        "未知"@
    }
}

/// The label shown for an identity.
pub fn role_label(role_type: &str) -> (r: &'static str)
    ensures
        r@ == role_label_spec(role_type@),
{
    if str_eq(role_type, "local") {
        "本班學生"
    } else if str_eq(role_type, "senior") {
        "學長姐"
    } else if str_eq(role_type, "teacher") {
        "老師"
    } else if str_eq(role_type, "guest") {
        "路人"
    } else {
        "未知"
    }
}

/// The id of the button that confirms an identity: `confirm:` and the identity.
pub fn confirm_button_id(role_type: &str) -> (r: String)
    ensures
        r@ == "confirm:"@ + role_type@,
{
    let mut out: Vec<char> = Vec::new();
    push_str(&mut out, "confirm:");
    push_str(&mut out, role_type);
    string_from_chars(out.as_slice())
}

/// The id of the button that picks an identity on the setup panel.
pub fn setup_button_id(role_type: &str) -> (r: String)
    ensures
        r@ == "setup:"@ + role_type@,
{
    let mut out: Vec<char> = Vec::new();
    push_str(&mut out, "setup:");
    push_str(&mut out, role_type);
    string_from_chars(out.as_slice())
}

/// One short, required text input of a form.
#[derive(Clone, Debug)]
pub struct FormInput {
    pub label: String,
    pub custom_id: String,
}

/// The form an identity is verified with.
#[derive(Clone, Debug)]
pub struct ModalForm {
    pub custom_id: String,
    pub title: String,
    pub inputs: Vec<FormInput>,
}

/// A form as texts: its id, its title and its inputs (label, id).
pub open spec fn form_view(f: ModalForm) -> (Seq<char>, Seq<char>, Seq<(Seq<char>, Seq<char>)>) {
    (f.custom_id@, f.title@, f.inputs@.map_values(|i: FormInput| (i.label@, i.custom_id@)))
}

/// The form of each identity that has one.
pub open spec fn role_form_spec(role_type: Seq<char>) -> Option<
    (Seq<char>, Seq<char>, Seq<(Seq<char>, Seq<char>)>),
> {
    if role_type == "local"@ {
        Some(("modal:local"@, "本班學生驗證"@, seq![("請輸入學號"@, "sid_input"@), ("真實姓名"@, "name_input"@)]))
    } else if role_type == "senior"@ {
        Some(
            (
                "modal:senior"@,
                "學長姐資料綁定"@,
                seq![("姓名"@, "name_input"@), ("學號"@, "sid_input"@), ("科系與年級"@, "dept_input"@)],
            ),
        )
    } else if role_type == "teacher"@ {
        Some(
            (
                "modal:teacher"@,
                "老師資料綁定"@,
                seq![("姓名"@, "name_input"@), ("職稱"@, "info_input"@), ("所屬科系"@, "dept_input"@)],
            ),
        )
    } else {
        None
    }
}

fn input(label: &str, custom_id: &str) -> (r: FormInput)
    ensures
        r.label@ == label@,
        r.custom_id@ == custom_id@,
{
    FormInput { label: label.to_owned(), custom_id: custom_id.to_owned() }
}

/// The form of an identity; guests and unknown identities have none.
pub fn build_role_modal(role_type: &str) -> (r: Option<ModalForm>)
    ensures
        match r {
            Some(f) => role_form_spec(role_type@) == Some(form_view(f)),
            None => role_form_spec(role_type@) is None,
        },
{
    if str_eq(role_type, "local") {
        let inputs = vec![input("請輸入學號", "sid_input"), input("真實姓名", "name_input")];
        let f = ModalForm {
            custom_id: "modal:local".to_owned(),
            title: "本班學生驗證".to_owned(),
            inputs,
        };
        assert(form_view(f).2 =~= seq![("請輸入學號"@, "sid_input"@), ("真實姓名"@, "name_input"@)]);
        Some(f)
    } else if str_eq(role_type, "senior") {
        let inputs = vec![
            input("姓名", "name_input"),
            input("學號", "sid_input"),
            input("科系與年級", "dept_input"),
        ];
        let f = ModalForm {
            custom_id: "modal:senior".to_owned(),
            title: "學長姐資料綁定".to_owned(),
            inputs,
        };
        assert(form_view(f).2 =~= seq![("姓名"@, "name_input"@), ("學號"@, "sid_input"@), ("科系與年級"@, "dept_input"@)]);
        Some(f)
    } else if str_eq(role_type, "teacher") {
        let inputs = vec![
            input("姓名", "name_input"),
            input("職稱", "info_input"),
            input("所屬科系", "dept_input"),
        ];
        let f = ModalForm {
            custom_id: "modal:teacher".to_owned(),
            title: "老師資料綁定".to_owned(),
            inputs,
        };
        assert(form_view(f).2 =~= seq![("姓名"@, "name_input"@), ("職稱"@, "info_input"@), ("所屬科系"@, "dept_input"@)]);
        Some(f)
    } else {
        None
    }
}

} // verus!
