//! Key references: a user's string normalised into an identifier, a
//! fully-qualified resource name or an alias.

use std::str::FromStr;
use vstd::prelude::*;
use vstd::std_specs::convert::FromSpecImpl;
use crate::text::starts_with;

verus! {

/// The prefix that marks a fully-qualified resource name.
pub const RESOURCE_NAME_PREFIX: &'static str = "arn:aws:kms";

/// The prefix that every alias carries.
pub const ALIAS_PREFIX: &'static str = "alias/";

/// A reference to a key of the key-management service.
#[derive(Clone, Debug, PartialEq, Eq)]
pub enum Key {
    /// A 128-bit key identifier, as the number its sixteen bytes spell
    /// most significant byte first.
    Id(u128),
    /// A fully-qualified resource name, kept as it was given.
    Arn(String),
    /// An alias, always written with its `alias/` prefix.
    Alias(String),
}

/// The mathematical value of a [`Key`].
pub enum KeyView {
    Id(u128),
    Arn(Seq<char>),
    Alias(Seq<char>),
}

impl View for Key {
    type V = KeyView;

    open spec fn view(&self) -> KeyView {
        match *self {
            Key::Id(id) => KeyView::Id(id),
            Key::Arn(name) => KeyView::Arn(name@),
            Key::Alias(name) => KeyView::Alias(name@),
        }
    }
}

/// What parsing a text as a UUID gives: the identifier as a number, or `None`
/// where the text is in none of the accepted forms.
pub uninterp spec fn uuid_value(text: Seq<char>) -> Option<u128>;

/// The lowercase hexadecimal digit of a value below sixteen.
pub open spec fn hex_digit(value: int) -> char {
    if value < 10 {
        ('0' as int + value) as char
    } else {
        ('a' as int + value - 10) as char
    }
}

/// The `index`-th of the 32 hexadecimal digits of `id`, counted from the most
/// significant.
pub open spec fn nibble(id: u128, index: int) -> int {
    ((id >> ((4 * (31 - index)) as u128)) & 0xf) as int
}

/// How many hyphens stand before position `at` of the canonical form.
pub open spec fn hyphens_before(at: int) -> int {
    if at < 8 {
        0
    } else if at < 13 {
        1
    } else if at < 18 {
        2
    } else if at < 23 {
        3
    } else {
        4
    }
}

/// The canonical text of an identifier: 32 lowercase hexadecimal digits in
/// groups of 8, 4, 4, 4 and 12, with a hyphen between the groups.
pub open spec fn canonical_text(id: u128) -> Seq<char> {
    Seq::new(
        36,
        |at: int|
            if at == 8 || at == 13 || at == 18 || at == 23 {
                '-'
            } else {
                hex_digit(nibble(id, at - hyphens_before(at)))
            },
    )
}

/// The key reference that a raw text stands for, given what parsing that text
/// as a UUID gave. The first rule that fits decides: a resource name, then an
/// identifier, then an alias as written, then an alias under the added prefix.
pub open spec fn resolve_with(raw: Seq<char>, parsed: Option<u128>) -> KeyView {
    if RESOURCE_NAME_PREFIX@.is_prefix_of(raw) {
        KeyView::Arn(raw)
    } else if let Some(id) = parsed {
        KeyView::Id(id)
    } else if ALIAS_PREFIX@.is_prefix_of(raw) {
        KeyView::Alias(raw)
    } else {
        KeyView::Alias(ALIAS_PREFIX@ + raw)
    }
}

/// The key reference that a raw text stands for.
pub open spec fn resolve(raw: Seq<char>) -> KeyView {
    resolve_with(raw, uuid_value(raw))
}

impl KeyView {
    /// A resource name begins with its provider prefix and an alias with
    /// `alias/`; every identifier is well formed.
    pub open spec fn wf(self) -> bool {
        match self {
            KeyView::Id(_) => true,
            KeyView::Arn(name) => RESOURCE_NAME_PREFIX@.is_prefix_of(name),
            KeyView::Alias(name) => ALIAS_PREFIX@.is_prefix_of(name),
        }
    }

    /// The text that names the key to the service: a resource name or an
    /// alias as it stands, an identifier in its canonical form.
    pub open spec fn text(self) -> Seq<char> {
        match self {
            KeyView::Id(id) => canonical_text(id),
            KeyView::Arn(name) => name,
            KeyView::Alias(name) => name,
        }
    }
}

/// `uuid::Uuid::from_str`, with the identifier handed out as a number by
/// `Uuid::as_u128`. The result depends on the text alone; which texts parse is
/// left to the `uuid` crate and only named here.
#[verifier::external_body]
fn parse_uuid(text: &str) -> (parsed: Option<u128>)
    ensures
        parsed == uuid_value(text@),
{
    match uuid::Uuid::from_str(text) {
        Ok(id) => Some(id.as_u128()),
        Err(_) => None,
    }
}

/// `ToString::to_string` on the `uuid::Uuid` that `Uuid::from_u128` makes of
/// `id`. The crate prints an identifier in its hyphenated lowercase form: the
/// sixteen bytes in order, two digits each.
#[verifier::external_body]
fn uuid_text(id: u128) -> (text: String)
    ensures
        text@ == canonical_text(id),
{
    uuid::Uuid::from_u128(id).to_string()
}

impl Key {
    /// Whether the reference obeys the prefix rules of its variant.
    pub open spec fn wf(&self) -> bool {
        self@.wf()
    }

    /// Normalises `raw`, given the outcome `parsed` of parsing it as a UUID.
    pub fn classify(raw: String, parsed: Option<u128>) -> (key: Key)
        ensures
            key@ == resolve_with(raw@, parsed),
            key.wf(),
    {
        if starts_with(raw.as_str(), RESOURCE_NAME_PREFIX) {
            Key::Arn(raw)
        } else if let Some(id) = parsed {
            Key::Id(id)
        } else if starts_with(raw.as_str(), ALIAS_PREFIX) {
            Key::Alias(raw)
        } else {
            let name = ALIAS_PREFIX.to_owned().concat(raw.as_str());
            assert(name@.subrange(0, ALIAS_PREFIX@.len() as int) =~= ALIAS_PREFIX@);
            Key::Alias(name)
        }
    }

    /// The text that names the key to the service.
    pub fn into_text(self) -> (text: String)
        ensures
            text@ == self@.text(),
    {
        match self {
            Key::Id(id) => uuid_text(id),
            Key::Arn(name) => name,
            Key::Alias(name) => name,
        }
    }
}

/// Conversions into a key are specified by view, in the `ensures` of `from`:
/// two strings of one content are not one value to the verifier, so no single
/// key can be named as the result.
impl FromSpecImpl<String> for Key {
    open spec fn obeys_from_spec() -> bool {
        false
    }

    open spec fn from_spec(raw: String) -> Key {
        choose|key: Key| key@ == resolve(raw@)
    }
}

impl From<String> for Key {
    /// Normalises a raw text into a key reference. Every text is accepted. A
    /// text under the resource-name prefix is not parsed as a UUID at all.
    fn from(raw: String) -> (key: Key)
        ensures
            key@ == resolve(raw@),
            key.wf(),
    {
        let parsed = if starts_with(raw.as_str(), RESOURCE_NAME_PREFIX) {
            None
        } else {
            parse_uuid(raw.as_str())
        };
        Key::classify(raw, parsed)
    }
}

impl<'a> FromSpecImpl<&'a str> for Key {
    open spec fn obeys_from_spec() -> bool {
        false
    }

    open spec fn from_spec(raw: &'a str) -> Key {
        choose|key: Key| key@ == resolve(raw@)
    }
}

impl<'a> From<&'a str> for Key {
    /// Normalises a raw text into a key reference, as `From<String>` does.
    fn from(raw: &'a str) -> (key: Key)
        ensures
            key@ == resolve(raw@),
            key.wf(),
    {
        Key::from(raw.to_owned())
    }
}

impl FromSpecImpl<Key> for String {
    open spec fn obeys_from_spec() -> bool {
        false
    }

    open spec fn from_spec(key: Key) -> String {
        choose|text: String| text@ == key@.text()
    }
}

impl From<Key> for String {
    /// The text that names the key to the service: a resource name or an
    /// alias unchanged, an identifier in its canonical form.
    fn from(key: Key) -> (text: String)
        ensures
            text@ == key@.text(),
    {
        key.into_text()
    }
}

/// A text that is no resource name, no UUID and no alias becomes the alias
/// of that name: the alias prefix followed by the text.
pub proof fn lemma_plain_name_becomes_alias(raw: Seq<char>)
    requires
        raw.len() > 0,
        !RESOURCE_NAME_PREFIX@.is_prefix_of(raw),
        uuid_value(raw).is_none(),
        !ALIAS_PREFIX@.is_prefix_of(raw),
    ensures
        resolve(raw) == KeyView::Alias(ALIAS_PREFIX@ + raw),
        resolve(raw).text() == ALIAS_PREFIX@ + raw,
{
}

/// A text that parses as a UUID resolves to the identifier parsed from it,
/// and that key is written back in the identifier's canonical form. Texts
/// under the resource-name prefix are resource names whatever else they are.
pub proof fn lemma_uuid_becomes_identifier(raw: Seq<char>, id: u128)
    requires
        uuid_value(raw) == Some(id),
        !RESOURCE_NAME_PREFIX@.is_prefix_of(raw),
    ensures
        resolve(raw) == KeyView::Id(id),
        resolve(raw).text() == canonical_text(id),
{
}

/// A text under the resource-name prefix resolves to itself as a resource
/// name, and is written back unchanged.
pub proof fn lemma_resource_name_is_kept(raw: Seq<char>)
    requires
        RESOURCE_NAME_PREFIX@.is_prefix_of(raw),
    ensures
        resolve(raw) == KeyView::Arn(raw),
        resolve(raw).text() == raw,
{
}

/// A text that already carries the alias prefix, and is neither a resource
/// name nor a UUID, is kept as it is.
pub proof fn lemma_alias_is_kept(raw: Seq<char>)
    requires
        !RESOURCE_NAME_PREFIX@.is_prefix_of(raw),
        uuid_value(raw).is_none(),
        ALIAS_PREFIX@.is_prefix_of(raw),
    ensures
        resolve(raw) == KeyView::Alias(raw),
{
}

/// Every text resolves to a well-formed key, whatever parsing it gave.
pub proof fn lemma_resolve_is_well_formed(raw: Seq<char>, parsed: Option<u128>)
    ensures
        resolve_with(raw, parsed).wf(),
{
    assert((ALIAS_PREFIX@ + raw).subrange(0, ALIAS_PREFIX@.len() as int) =~= ALIAS_PREFIX@);
}

} // verus!
