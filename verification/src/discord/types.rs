//! What is sent to Discord.
use vstd::prelude::*;

verus! {

/// A channel to post to, or a webhook to post through.
#[derive(Clone, Debug)]
pub struct DiscordDeliveryTarget {
    /// Channel id; 0 for none.
    pub channel_id: u64,
    /// Webhook URL; empty for none.
    pub webhook_url: String,
    /// Avatar shown on webhook posts; empty for the webhook's own.
    pub webhook_avatar_url: String,
}

/// One field of an embed.
#[derive(Clone, Debug)]
pub struct DiscordEmbedField {
    pub name: String,
    pub value: String,
    pub inline: bool,
}

/// A rich message.
#[derive(Clone, Debug)]
pub struct DiscordEmbedPayload {
    pub title: String,
    pub description: String,
    pub url: String,
    pub color: u32,
    pub fields: Vec<DiscordEmbedField>,
    pub footer: String,
}

/// The text of an embed field: name, value and whether it is inline.
pub open spec fn field_view(f: DiscordEmbedField) -> (Seq<char>, Seq<char>, bool) {
    (f.name@, f.value@, f.inline)
}

pub open spec fn fields_view(s: Seq<DiscordEmbedField>) -> Seq<(Seq<char>, Seq<char>, bool)> {
    s.map_values(|f: DiscordEmbedField| field_view(f))
}

/// A field with the given texts.
pub fn make_field(name: &str, value: &str, inline: bool) -> (r: DiscordEmbedField)
    ensures
        field_view(r) == (name@, value@, inline),
{
    DiscordEmbedField { name: name.to_owned(), value: value.to_owned(), inline }
}

/// A copy of a field.
pub fn copy_field(f: &DiscordEmbedField) -> (r: DiscordEmbedField)
    ensures
        field_view(r) == field_view(*f),
{
    DiscordEmbedField { name: f.name.clone(), value: f.value.clone(), inline: f.inline }
}

/// A copy of a list of fields.
pub fn copy_fields(v: &Vec<DiscordEmbedField>) -> (r: Vec<DiscordEmbedField>)
    ensures
        fields_view(r@) == fields_view(v@),
{
    let mut out: Vec<DiscordEmbedField> = Vec::new();
    let mut i: usize = 0;
    while i < v.len()
        invariant
            i <= v@.len(),
            out@.len() == i,
            forall|j: int| 0 <= j < i ==> #[trigger] field_view(out@[j]) == field_view(v@[j]),
        decreases v@.len() - i,
    {
        out.push(copy_field(&v[i]));
        i = i + 1;
    }
    assert(fields_view(out@) =~= fields_view(v@));
    out
}

} // verus!
