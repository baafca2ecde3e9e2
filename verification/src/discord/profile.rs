//! Identity binding: what a submitted form makes of a member.
use vstd::prelude::*;
use crate::text::{
    is_digit, trim, trim_str, str_eq, push_str, string_from_chars, chars_of, extend_chars,
    lowercase_of, to_lowercase,
};
use crate::config::AppConfig;

verus! {

// ---------------------------------------------------------------------------
// Student ids
// ---------------------------------------------------------------------------

/// A student id: eight digits, the first 3, 4 or 5 and the sixth 1 or 2.
pub open spec fn student_id_valid(s: Seq<char>) -> bool {
    &&& s.len() == 8
    &&& (s[0] == '3' || s[0] == '4' || s[0] == '5')
    &&& forall|i: int| 0 <= i < 8 ==> is_digit(#[trigger] s[i])
    &&& (s[5] == '1' || s[5] == '2')
}

/// Whether a text is a student id.
pub fn check_student_id(sid: &str) -> (r: bool)
    ensures
        r == student_id_valid(sid@),
{
    let chars = chars_of(sid);
    if chars.len() != 8 {
        return false;
    }
    if !(chars[0] == '3' || chars[0] == '4' || chars[0] == '5') {
        return false;
    }
    let mut i: usize = 0;
    while i < 8
        invariant
            chars@ == sid@,
            chars@.len() == 8,
            i <= 8,
            forall|j: int| 0 <= j < i ==> is_digit(#[trigger] chars@[j]),
        decreases 8 - i,
    {
        let c = chars[i];
        if !('0' <= c && c <= '9') {
            assert(!is_digit(chars@[i as int]));
            return false;
        }
        i = i + 1;
    }
    chars[5] == '1' || chars[5] == '2'
}

// ---------------------------------------------------------------------------
// Form inputs
// ---------------------------------------------------------------------------

/// The value last given for `key` among the inputs of a form.
pub open spec fn last_input(inputs: Seq<(Seq<char>, Seq<char>)>, key: Seq<char>) -> Option<Seq<char>>
    decreases inputs.len(),
{
    if inputs.len() == 0 {
        None
    } else if inputs.last().0 == key {
        Some(inputs.last().1)
    } else {
        last_input(inputs.drop_last(), key)
    }
}

pub open spec fn pairs_view(s: Seq<(String, String)>) -> Seq<(Seq<char>, Seq<char>)> {
    s.map_values(|p: (String, String)| (p.0@, p.1@))
}

/// An input, trimmed; empty when the form did not carry it.
pub open spec fn input_text(inputs: Seq<(Seq<char>, Seq<char>)>, key: Seq<char>) -> Seq<char> {
    match last_input(inputs, key) {
        Some(v) => trim(v),
        None => seq![],
    }
}

/// An input of a submitted form, trimmed; empty when absent. Where a key was
/// given twice the later value counts.
pub fn input_value(inputs: &Vec<(String, String)>, key: &str) -> (r: String)
    ensures
        r@ == input_text(pairs_view(inputs@), key@),
{
    let ghost s = pairs_view(inputs@);
    let mut i: usize = inputs.len();
    assert(s.take(i as int) =~= s);
    while i > 0
        invariant
            i <= inputs@.len(),
            s == pairs_view(inputs@),
            last_input(s, key@) == last_input(s.take(i as int), key@),
        decreases i,
    {
        assert(s.take(i as int).drop_last() =~= s.take(i - 1));
        if str_eq(inputs[i - 1].0.as_str(), key) {
            return trim_str(inputs[i - 1].1.as_str());
        }
        i = i - 1;
    }
    assert(s.take(0).len() == 0);
    String::new()
}

/// The name the roster holds for a student id (the first entry for it).
pub open spec fn roster_name(roster: Seq<(Seq<char>, Seq<char>)>, sid: Seq<char>) -> Option<Seq<char>>
    decreases roster.len(),
{
    if roster.len() == 0 {
        None
    } else if roster[0].0 == sid {
        Some(roster[0].1)
    } else {
        roster_name(roster.drop_first(), sid)
    }
}

fn roster_lookup(roster: &Vec<(String, String)>, sid: &String) -> (r: Option<String>)
    ensures
        match r {
            Some(n) => roster_name(pairs_view(roster@), sid@) == Some(n@),
            None => roster_name(pairs_view(roster@), sid@) is None,
        },
{
    let ghost s = pairs_view(roster@);
    let mut i: usize = 0;
    assert(s.skip(0) =~= s);
    while i < roster.len()
        invariant
            i <= roster@.len(),
            s == pairs_view(roster@),
            roster_name(s, sid@) == roster_name(s.skip(i as int), sid@),
        decreases roster@.len() - i,
    {
        assert(s.skip(i as int).drop_first() =~= s.skip(i + 1));
        assert(s.skip(i as int)[0] == s[i as int]);
        if roster[i].0 == *sid {
            return Some(roster[i].1.clone());
        }
        i = i + 1;
    }
    None
}

// ---------------------------------------------------------------------------
// Binding
// ---------------------------------------------------------------------------

/// What a submitted form makes of a member.
#[derive(Clone, Debug)]
pub struct BindingResult {
    /// The nickname the member gets.
    pub nickname: String,
    /// The student id (for teachers, `T-` and the department).
    pub sid: String,
    pub name: String,
    /// The roles the member gets.
    pub roles: Vec<u64>,
    /// Whether the form passed the checks.
    pub valid: bool,
}

/// A binding as texts: nickname, id, name, roles and validity.
pub open spec fn binding_view(b: BindingResult) -> (Seq<char>, Seq<char>, Seq<char>, Seq<u64>, bool) {
    (b.nickname@, b.sid@, b.name@, b.roles@, b.valid)
}

/// The binding a form gives.
pub open spec fn binding_spec(
    role_type: Seq<char>,
    inputs: Seq<(Seq<char>, Seq<char>)>,
    display_name: Seq<char>,
    roster: Seq<(Seq<char>, Seq<char>)>,
    verified_role: u64,
    local_role: u64,
    senior_role: u64,
    teacher_role: u64,
) -> (Seq<char>, Seq<char>, Seq<char>, Seq<u64>, bool) {
    let invalid = (seq![], seq![], seq![], seq![verified_role], false);
    if role_type == "local"@ {
        let sid = input_text(inputs, "sid_input"@);
        let name = input_text(inputs, "name_input"@);
        if student_id_valid(sid) && roster_name(roster, sid) == Some(name) {
            (
                display_name + " ("@ + sid.skip(6) + ")"@,
                sid,
                name,
                seq![verified_role, local_role],
                true,
            )
        } else {
            invalid
        }
    } else if role_type == "senior"@ {
        let sid = input_text(inputs, "sid_input"@);
        if student_id_valid(sid) {
            (
                "["@ + input_text(inputs, "dept_input"@) + "] "@ + display_name,
                sid,
                input_text(inputs, "name_input"@),
                seq![verified_role, senior_role],
                true,
            )
        } else {
            invalid
        }
    } else if role_type == "teacher"@ {
        (
            display_name + " ("@ + input_text(inputs, "info_input"@) + ")"@,
            "T-"@ + input_text(inputs, "dept_input"@),
            input_text(inputs, "name_input"@),
            seq![verified_role, teacher_role],
            true,
        )
    } else {
        (display_name, seq![], seq![], seq![verified_role], true)
    }
}

/// What a field of a form holds: the trimmed value given last for its key,
/// or nothing where the form does not carry the key.
pub open spec fn form_field(inputs: Seq<(Seq<char>, Seq<char>)>, key: Seq<char>, v: Seq<char>) -> bool {
    ||| (forall|i: int| 0 <= i < inputs.len() ==> #[trigger] inputs[i].0 != key) && v
        == Seq::<char>::empty()
    ||| exists|i: int|
        0 <= i < inputs.len() && #[trigger] inputs[i].0 == key && (forall|j: int|
            i < j < inputs.len() ==> #[trigger] inputs[j].0 != key) && v == trim(inputs[i].1)
}

proof fn lemma_input_text_is_form_field(inputs: Seq<(Seq<char>, Seq<char>)>, key: Seq<char>)
    ensures
        form_field(inputs, key, input_text(inputs, key)),
    decreases inputs.len(),
{
    if inputs.len() > 0 {
        let n = inputs.len() - 1;
        let t = inputs.drop_last();
        if inputs[n].0 == key {
            assert(inputs.last() == inputs[n]);
        } else {
            lemma_input_text_is_form_field(t, key);
            assert(input_text(inputs, key) == input_text(t, key));
            if forall|i: int| 0 <= i < t.len() ==> #[trigger] t[i].0 != key {
                assert forall|i: int| 0 <= i < inputs.len() implies #[trigger] inputs[i].0 != key by {
                    if i < n {
                        assert(t[i] == inputs[i]);
                    }
                }
            } else {
                let i = choose|i: int|
                    0 <= i < t.len() && #[trigger] t[i].0 == key && (forall|j: int|
                        i < j < t.len() ==> #[trigger] t[j].0 != key) && input_text(t, key) == trim(
                        t[i].1,
                    );
                assert(t[i] == inputs[i]);
                assert forall|j: int| i < j < inputs.len() implies #[trigger] inputs[j].0 != key by {
                    if j < n {
                        assert(t[j] == inputs[j]);
                    }
                }
                assert(inputs[i].0 == key);
            }
        }
    }
}

/// What a binding keeps of the form. A student of the class, a senior or a
/// teacher who passes keeps the name given in the form's name field; a
/// student or senior keeps the form's student id, which is a valid id, and a
/// student's name is the one the roster holds for that id; a senior gets the
/// verified and senior roles and a nickname with the form's department
/// before the display name. A refused form keeps nothing but the verified
/// role.
pub proof fn law_binding_takes_form_fields(
    role_type: Seq<char>,
    inputs: Seq<(Seq<char>, Seq<char>)>,
    display_name: Seq<char>,
    roster: Seq<(Seq<char>, Seq<char>)>,
    verified_role: u64,
    local_role: u64,
    senior_role: u64,
    teacher_role: u64,
)
    ensures
        ({
            let b = binding_spec(
                role_type,
                inputs,
                display_name,
                roster,
                verified_role,
                local_role,
                senior_role,
                teacher_role,
            );
            &&& (role_type == "local"@ || role_type == "senior"@ || role_type == "teacher"@) && b.4
                ==> form_field(inputs, "name_input"@, b.2)
            &&& (role_type == "local"@ || role_type == "senior"@) && b.4 ==> form_field(
                inputs,
                "sid_input"@,
                b.1,
            ) && student_id_valid(b.1)
            &&& role_type == "local"@ && b.4 ==> roster_name(roster, b.1) == Some(b.2) && b.3
                == seq![verified_role, local_role]
            &&& role_type == "senior"@ && b.4 ==> b.3 == seq![verified_role, senior_role] && exists|
                d: Seq<char>,
            | form_field(inputs, "dept_input"@, d) && b.0 == "["@ + d + "] "@ + display_name
            &&& role_type == "senior"@ ==> (b.4 <==> student_id_valid(input_text(inputs, "sid_input"@)))
            &&& role_type == "local"@ && b.4 ==> b.0 == display_name + " ("@ + b.1.subrange(6, 8)
                + ")"@
            &&& role_type == "teacher"@ ==> b.4 && b.3 == seq![verified_role, teacher_role] && exists|
                d: Seq<char>,
                info: Seq<char>,
            | form_field(inputs, "dept_input"@, d) && form_field(inputs, "info_input"@, info) && b.1
                == "T-"@ + d && b.0 == display_name + " ("@ + info + ")"@
            &&& role_type != "local"@ && role_type != "senior"@ && role_type != "teacher"@ ==> b
                == (display_name, Seq::<char>::empty(), Seq::<char>::empty(), seq![verified_role], true)
            &&& !b.4 ==> b.0 == Seq::<char>::empty() && b.1 == Seq::<char>::empty() && b.2
                == Seq::<char>::empty() && b.3 == seq![verified_role]
        }),
{
    lemma_input_text_is_form_field(inputs, "name_input"@);
    lemma_input_text_is_form_field(inputs, "sid_input"@);
    lemma_input_text_is_form_field(inputs, "dept_input"@);
    reveal_strlit("local");
    reveal_strlit("senior");
    reveal_strlit("teacher");
    let b = binding_spec(
        role_type,
        inputs,
        display_name,
        roster,
        verified_role,
        local_role,
        senior_role,
        teacher_role,
    );
    assert("local"@.len() == 5);
    assert("senior"@.len() == 6);
    assert("local"@ != "senior"@);
    lemma_input_text_is_form_field(inputs, "info_input"@);
    reveal_strlit("teacher");
    assert("teacher"@.len() == 7);
    assert("local"@ != "teacher"@);
    assert("senior"@ != "teacher"@);
    if role_type == "teacher"@ {
        let d = input_text(inputs, "dept_input"@);
        let info = input_text(inputs, "info_input"@);
        assert(form_field(inputs, "dept_input"@, d) && form_field(inputs, "info_input"@, info));
    }
    if role_type == "local"@ && b.4 {
        let sid = input_text(inputs, "sid_input"@);
        assert(sid.len() == 8);
        assert(sid.skip(6) =~= sid.subrange(6, 8));
    }
    if role_type == "senior"@ && b.4 {
        assert(role_type != "local"@);
        assert(b.0 == "["@ + input_text(inputs, "dept_input"@) + "] "@ + display_name);
        let d = input_text(inputs, "dept_input"@);
        assert(form_field(inputs, "dept_input"@, d) && b.0 == "["@ + d + "] "@ + display_name);
    }
}

/// A refused binding: nothing but the verified role, and not valid.
pub fn invalid_binding(roles: Vec<u64>) -> (r: BindingResult)
    ensures
        binding_view(r) == (Seq::<char>::empty(), Seq::<char>::empty(), Seq::<char>::empty(), roles@, false),
{
    BindingResult {
        nickname: String::new(),
        sid: String::new(),
        name: String::new(),
        roles,
        valid: false,
    }
}

fn concat2(a: &str, b: &str) -> (r: String)
    ensures
        r@ == a@ + b@,
{
    let mut out: Vec<char> = Vec::new();
    push_str(&mut out, a);
    push_str(&mut out, b);
    string_from_chars(out.as_slice())
}

fn concat3(a: &str, b: &str, c: &str) -> (r: String)
    ensures
        r@ == a@ + b@ + c@,
{
    let mut out: Vec<char> = Vec::new();
    push_str(&mut out, a);
    push_str(&mut out, b);
    push_str(&mut out, c);
    string_from_chars(out.as_slice())
}

/// The binding a submitted form gives: the roster decides for students of
/// the class, the id format for seniors; teachers and guests always pass.
pub fn compute_binding(
    role_type: &str,
    inputs: &Vec<(String, String)>,
    display_name: &str,
    config: &AppConfig,
) -> (r: BindingResult)
    ensures
        binding_view(r) == binding_spec(
            role_type@,
            pairs_view(inputs@),
            display_name@,
            pairs_view(config.class_students@),
            config.roles.verified_role,
            config.roles.local_role,
            config.roles.senior_role,
            config.roles.teacher_role,
        ),
{
    let mut roles: Vec<u64> = vec![config.roles.verified_role];
    assert(roles@ =~= seq![config.roles.verified_role]);
    if str_eq(role_type, "local") {
        let sid = input_value(inputs, "sid_input");
        let name = input_value(inputs, "name_input");
        if !check_student_id(sid.as_str()) {
            return invalid_binding(roles);
        }
        let known = match roster_lookup(&config.class_students, &sid) {
            Some(expected) => expected == name,
            None => false,
        };
        if !known {
            return invalid_binding(roles);
        }
        roles.push(config.roles.local_role);
        let sid_chars = chars_of(sid.as_str());
        let tail = vstd::slice::slice_subrange(sid_chars.as_slice(), 6, 8);
        let mut nick: Vec<char> = Vec::new();
        push_str(&mut nick, display_name);
        push_str(&mut nick, " (");
        extend_chars(&mut nick, tail);
        push_str(&mut nick, ")");
        assert(tail@ == sid@.skip(6));
        assert(roles@ =~= seq![config.roles.verified_role, config.roles.local_role]);
        BindingResult {
            nickname: string_from_chars(nick.as_slice()),
            sid,
            name,
            roles,
            valid: true,
        }
    } else if str_eq(role_type, "senior") {
        let name = input_value(inputs, "name_input");
        let sid = input_value(inputs, "sid_input");
        let dept = input_value(inputs, "dept_input");
        if !check_student_id(sid.as_str()) {
            return invalid_binding(roles);
        }
        roles.push(config.roles.senior_role);
        assert(roles@ =~= seq![config.roles.verified_role, config.roles.senior_role]);
        BindingResult {
            nickname: concat2(concat3("[", dept.as_str(), "] ").as_str(), display_name),
            sid,
            name,
            roles,
            valid: true,
        }
    } else if str_eq(role_type, "teacher") {
        let name = input_value(inputs, "name_input");
        let title = input_value(inputs, "info_input");
        let dept = input_value(inputs, "dept_input");
        roles.push(config.roles.teacher_role);
        assert(roles@ =~= seq![config.roles.verified_role, config.roles.teacher_role]);
        BindingResult {
            nickname: concat3(display_name, " (", concat2(title.as_str(), ")").as_str()),
            sid: concat2("T-", dept.as_str()),
            name,
            roles,
            valid: true,
        }
    } else {
        assert(roles@ =~= seq![config.roles.verified_role]);
        BindingResult {
            nickname: display_name.to_owned(),
            sid: String::new(),
            name: String::new(),
            roles,
            valid: true,
        }
    }
}

// ---------------------------------------------------------------------------
// Stored identity
// ---------------------------------------------------------------------------

/// The identity stored for a member.
#[derive(PartialEq, Eq, Structural, Clone, Copy, Debug)]
pub enum MemberIdentity {
    Local,
    Senior,
    Teacher,
    Guest,
}

pub open spec fn identity_of(lowered: Seq<char>) -> MemberIdentity {
    if lowered == "local"@ {
        MemberIdentity::Local
    } else if lowered == "senior"@ {
        MemberIdentity::Senior
    } else if lowered == "teacher"@ {
        MemberIdentity::Teacher
    } else {
        MemberIdentity::Guest
    }
}

impl MemberIdentity {
    /// The identity named by a text, in any case; anything unknown is a guest.
    pub fn from_str(s: &str) -> (r: MemberIdentity)
        ensures
            r == identity_of(lowercase_of(s@)),
    {
        let lowered = to_lowercase(s);
        if str_eq(lowered.as_str(), "local") {
            MemberIdentity::Local
        } else if str_eq(lowered.as_str(), "senior") {
            MemberIdentity::Senior
        } else if str_eq(lowered.as_str(), "teacher") {
            MemberIdentity::Teacher
        } else {
            MemberIdentity::Guest
        }
    }

    /// The text the identity is stored as.
    pub fn as_str(&self) -> (r: &'static str)
        ensures
            r@ == match *self {
                MemberIdentity::Local => "local"@,
                MemberIdentity::Senior => "senior"@,
                MemberIdentity::Teacher => "teacher"@,
                MemberIdentity::Guest => "guest"@,
            },
    {
        match self {
            MemberIdentity::Local => "local",
            MemberIdentity::Senior => "senior",
            MemberIdentity::Teacher => "teacher",
            MemberIdentity::Guest => "guest",
        }
    }
}

} // verus!
