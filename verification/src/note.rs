use vstd::prelude::*;
use crate::error::{AppError, AppResult};

verus! {

/// Id of the note that exists from the first start on.
pub const DEFAULT_NOTE_ID: &'static str = "default";

/// A note as the store keeps it.
#[derive(Debug, Clone)]
pub struct Note {
    pub id: String,
    pub content: String,
    /// Creation time, milliseconds since the Unix epoch (UTC).
    pub created_at: i64,
    /// Time of the last change, milliseconds since the Unix epoch (UTC).
    pub updated_at: i64,
    pub pinned: bool,
    pub tags: Vec<String>,
}

/// A store of notes.
pub trait NoteRepository: Send + Sync {
    /// The default note; it is created, empty, when it does not exist yet.
    fn get_or_create_default(&self) -> AppResult<Note>;

    /// Replaces the content of the note `id` and returns it as stored;
    /// `AppError::NotFound(id)` when there is no such note.
    fn save_content(&self, id: &str, content: &str) -> AppResult<Note>;

    /// Every note, pinned ones first, then the most recently changed first.
    fn list_all(&self) -> AppResult<Vec<Note>>;
}

/// `n` is the default note as it is first created, at time `now`.
pub open spec fn is_new_default(n: Note, now: i64) -> bool {
    &&& n.id@ == DEFAULT_NOTE_ID@
    &&& n.content@ == Seq::<char>::empty()
    &&& n.created_at == now
    &&& n.updated_at == now
    &&& !n.pinned
    &&& n.tags@ == Seq::<String>::empty()
}

impl Note {
    /// The default note as it is created at time `now` (milliseconds since
    /// the Unix epoch, read from the clock by the caller): empty, unpinned,
    /// without tags, created and updated at `now`.
    pub fn new_default(now: i64) -> (n: Note)
        ensures
            is_new_default(n, now),
    {
        Note {
            id: DEFAULT_NOTE_ID.to_owned(),
            content: String::new(),
            created_at: now,
            updated_at: now,
            pinned: false,
            tags: Vec::new(),
        }
    }
}

/// What `serde_json::from_str::<Vec<String>>` gives for a text: the list of
/// strings it encodes, or `None` where it is no JSON array of strings.
pub uninterp spec fn json_string_list(json: Seq<char>) -> Option<Seq<Seq<char>>>;

/// A lower-case hexadecimal digit.
pub open spec fn hex_digit(d: int) -> char {
    seq!['0', '1', '2', '3', '4', '5', '6', '7', '8', '9', 'a', 'b', 'c', 'd', 'e', 'f'][d]
}

/// How serde_json writes one character inside a JSON string: `"` and `\`
/// escaped by a backslash, backspace, tab, line feed, form feed and carriage
/// return as `\b \t \n \f \r`, other control characters below U+0020 as
/// `\u00XX` in lower-case hex, every other character as it is.
pub open spec fn json_escape(c: char) -> Seq<char> {
    let u = c as u32;
    if u == 0x22 {
        seq!['\\', '"']
    } else if u == 0x5c {
        seq!['\\', '\\']
    } else if u == 0x08 {
        seq!['\\', 'b']
    } else if u == 0x09 {
        seq!['\\', 't']
    } else if u == 0x0a {
        seq!['\\', 'n']
    } else if u == 0x0c {
        seq!['\\', 'f']
    } else if u == 0x0d {
        seq!['\\', 'r']
    } else if u < 0x20 {
        seq!['\\', 'u', '0', '0', hex_digit((u / 16) as int), hex_digit((u % 16) as int)]
    } else {
        seq![c]
    }
}

/// The characters of `s`, each written as serde_json writes it in a string.
pub open spec fn json_escaped(s: Seq<char>) -> Seq<char>
    decreases s.len(),
{
    if s.len() == 0 {
        Seq::empty()
    } else {
        json_escape(s[0]) + json_escaped(s.drop_first())
    }
}

/// A JSON string as serde_json writes it: the escaped text in double quotes.
pub open spec fn json_string_text(s: Seq<char>) -> Seq<char> {
    seq!['"'] + json_escaped(s) + seq!['"']
}

/// The JSON strings of a list, separated by commas.
pub open spec fn json_items_text(d: Seq<Seq<char>>) -> Seq<char>
    decreases d.len(),
{
    if d.len() == 0 {
        Seq::empty()
    } else if d.len() == 1 {
        json_string_text(d[0])
    } else {
        json_string_text(d[0]) + seq![','] + json_items_text(d.drop_first())
    }
}

/// A list of strings as `serde_json::to_string` writes it: `[`, the JSON
/// strings separated by commas with no white space, `]`.
pub open spec fn json_list_text(d: Seq<Seq<char>>) -> Seq<char> {
    seq!['['] + json_items_text(d) + seq![']']
}

/// Decodes a JSON array of strings (`serde_json::from_str::<Vec<String>>`);
/// `None` where the text is no such array. The result in general is named,
/// not described: it is what serde_json computes for the text. What is
/// stated besides is that a text that serde_json itself wrote for a list of
/// strings (`json_list_text`) decodes to that list: its parser reads the
/// brackets, commas and every escape that its writer emits.
#[verifier::external_body]
fn decode_string_list(json: &str) -> (r: Option<Vec<String>>)
    ensures
        match r {
            Some(v) => json_string_list(json@) == Some(v.deep_view()),
            None => json_string_list(json@) is None,
        },
        forall|d: Seq<Seq<char>>|
            #[trigger] json_list_text(d) == json@ ==> r is Some && r.unwrap().deep_view() == d,
{
    serde_json::from_str::<Vec<String>>(json).ok()
}

/// Encodes a list of strings as JSON (`serde_json::to_string`). For a
/// `Vec<String>` it never fails: its writer is a `Vec<u8>`, and strings and
/// sequences serialize without error; the text is `json_list_text` of the
/// list (compact formatter, escape table of `format_escaped_str_contents`).
#[verifier::external_body]
fn encode_string_list(items: &Vec<String>) -> (r: Option<String>)
    ensures
        r is Some,
        r.unwrap()@ == json_list_text(items.deep_view()),
{
    serde_json::to_string(items).ok()
}

/// The tags that a stored `tags` column holds: its JSON list, or no tags
/// where the column holds anything else.
pub open spec fn tags_of_column(json: Seq<char>) -> Seq<Seq<char>> {
    if exists|d: Seq<Seq<char>>| json_list_text(d) == json {
        choose|d: Seq<Seq<char>>| json_list_text(d) == json
    } else {
        match json_string_list(json) {
            Some(t) => t,
            None => Seq::empty(),
        }
    }
}

/// The tags from a decoded `tags` column: the decoded list, or no tags where
/// the column held no JSON list of strings.
pub fn tags_or_none(decoded: Option<Vec<String>>) -> (tags: Vec<String>)
    ensures
        tags.deep_view() == match decoded {
            Some(v) => v.deep_view(),
            None => Seq::empty(),
        },
{
    match decoded {
        Some(v) => v,
        None => {
            let v: Vec<String> = Vec::new();
            assert(v.deep_view() =~= Seq::<Seq<char>>::empty());
            v
        },
    }
}

/// Decodes the `tags` column: the JSON list of strings it holds, or no tags
/// where it holds anything else. A column written by `tags_column` reads
/// back as the list that was written.
pub fn tags_from_column(json: &str) -> (tags: Vec<String>)
    ensures
        tags.deep_view() == tags_of_column(json@),
        forall|d: Seq<Seq<char>>| #[trigger] json_list_text(d) == json@ ==> tags.deep_view() == d,
        match json_string_list(json@) {
            Some(t) => tags.deep_view() == t,
            None => tags.deep_view() == Seq::<Seq<char>>::empty(),
        },
{
    tags_or_none(decode_string_list(json))
}

/// The text for the `tags` column from an encoding attempt: the encoding,
/// or `[]` where there is none.
pub fn json_or_empty_list(encoded: Option<String>) -> (json: String)
    ensures
        json@ == match encoded {
            Some(t) => t@,
            None => seq!['[', ']'],
        },
{
    match encoded {
        Some(t) => t,
        None => {
            let t = String::from_str("[]");
            proof {
                reveal_strlit("[]");
            }
            assert(t@ =~= seq!['[', ']']);
            t
        },
    }
}

/// The text stored in the `tags` column for a list of tags: its JSON
/// encoding (encoding a list of strings does not fail, so the fallback `[]`
/// is never taken).
pub fn tags_column(tags: &Vec<String>) -> (json: String)
    ensures
        json@ == json_list_text(tags.deep_view()),
{
    json_or_empty_list(encode_string_list(tags))
}

/// The integer stored in the `pinned` column for a flag.
pub open spec fn pinned_value(pinned: bool) -> i64 {
    if pinned {
        1
    } else {
        0
    }
}

/// The integer stored in the `pinned` column: 1 for pinned, 0 otherwise.
pub fn pinned_column(pinned: bool) -> (v: i64)
    ensures
        v == pinned_value(pinned),
{
    if pinned {
        1
    } else {
        0
    }
}

/// A note from the columns of its row: `pinned` is set where the column is
/// not 0, and the tags are those that the `tags` column encodes.
pub fn note_from_row(
    id: String,
    content: String,
    created_at: i64,
    updated_at: i64,
    pinned: i64,
    tags_json: &str,
) -> (n: Note)
    ensures
        n.id == id,
        n.content == content,
        n.created_at == created_at,
        n.updated_at == updated_at,
        n.pinned == (pinned != 0),
        n.tags.deep_view() == tags_of_column(tags_json@),
        match json_string_list(tags_json@) {
            Some(t) => n.tags.deep_view() == t,
            None => n.tags.deep_view() == Seq::<Seq<char>>::empty(),
        },
{
    Note {
        id,
        content,
        created_at,
        updated_at,
        pinned: pinned != 0,
        tags: tags_from_column(tags_json),
    }
}

/// The outcome of looking up the default note.
pub enum DefaultNote {
    /// It exists: this is it, as stored.
    Found(Note),
    /// It does not exist yet: `Note::new_default` at the current time is to
    /// be inserted and returned.
    Missing,
}

/// What `get_or_create_default` does after the lookup of the default note:
/// the note it found, unchanged, or create it where it found none.
pub open spec fn spec_resolve_default(existing: Option<Note>) -> DefaultNote {
    match existing {
        Some(n) => DefaultNote::Found(n),
        None => DefaultNote::Missing,
    }
}

/// Decides what `get_or_create_default` does, given what the lookup of the
/// default note found: return the stored note unchanged, or create it.
pub fn resolve_default_note(existing: Option<Note>) -> (d: DefaultNote)
    ensures
        d == spec_resolve_default(existing),
{
    match existing {
        Some(n) => DefaultNote::Found(n),
        None => DefaultNote::Missing,
    }
}

/// Checks the number of rows that an update of note `id` changed: none
/// means there is no such note.
pub fn require_updated(rows: usize, id: &str) -> (r: AppResult<()>)
    ensures
        rows != 0 <==> r is Ok,
        rows == 0 ==> (r matches Err(AppError::NotFound(s)) && s@ == id@),
{
    if rows == 0 {
        Err(AppError::NotFound(id.to_owned()))
    } else {
        Ok(())
    }
}

/// The number of results a search returns at most: `limit`, 50 where none
/// is given, kept within 1 to 200.
pub fn search_limit(limit: Option<usize>) -> (n: usize)
    ensures
        n == ({
            let l = match limit {
                Some(l) => l,
                None => 50,
            };
            if l < 1 {
                1
            } else if l > 200 {
                200
            } else {
                l
            }
        }),
{
    let l: usize = match limit {
        Some(l) => l,
        None => 50,
    };
    if l < 1 {
        1
    } else if l > 200 {
        200
    } else {
        l
    }
}

/// The kind of a new note: the one given, `memo` where none is.
pub fn note_kind(kind: Option<String>) -> (k: String)
    ensures
        k@ == match kind {
            Some(s) => s@,
            None => seq!['m', 'e', 'm', 'o'],
        },
{
    match kind {
        Some(s) => s,
        None => {
            let k = String::from_str("memo");
            proof {
                reveal_strlit("memo");
            }
            assert(k@ =~= seq!['m', 'e', 'm', 'o']);
            k
        },
    }
}

proof fn lemma_escape_not_quote(c: char)
    ensures
        json_escape(c).len() > 0,
        json_escape(c)[0] != '"',
{
}

proof fn lemma_hex_digit_injective(a: int, b: int)
    requires
        0 <= a < 16,
        0 <= b < 16,
        hex_digit(a) == hex_digit(b),
    ensures
        a == b,
{
    let h = seq!['0', '1', '2', '3', '4', '5', '6', '7', '8', '9', 'a', 'b', 'c', 'd', 'e', 'f'];
    assert(h[0] == '0' && h[1] == '1' && h[2] == '2' && h[3] == '3' && h[4] == '4' && h[5] == '5'
        && h[6] == '6' && h[7] == '7' && h[8] == '8' && h[9] == '9' && h[10] == 'a' && h[11] == 'b'
        && h[12] == 'c' && h[13] == 'd' && h[14] == 'e' && h[15] == 'f');
}

/// No escape of a character is a proper prefix of another's, and the
/// escapes of two characters differ: what follows is determined.
proof fn lemma_escape_prefix_free(c1: char, c2: char, x: Seq<char>, y: Seq<char>)
    requires
        json_escape(c1) + x == json_escape(c2) + y,
    ensures
        c1 == c2,
        x == y,
{
    let e1 = json_escape(c1);
    let e2 = json_escape(c2);
    let s = e1 + x;
    assert(s[0] == e1[0]);
    assert(s[0] == e2[0]);
    let u1 = c1 as u32;
    let u2 = c2 as u32;
    if e1.len() >= 2 && e2.len() >= 2 {
        assert(s[1] == e1[1]);
        assert(s[1] == e2[1]);
        if e1.len() == 6 && e2.len() == 6 {
            assert(s[4] == e1[4] && s[4] == e2[4]);
            assert(s[5] == e1[5] && s[5] == e2[5]);
            lemma_hex_digit_injective((u1 / 16) as int, (u2 / 16) as int);
            lemma_hex_digit_injective((u1 % 16) as int, (u2 % 16) as int);
            assert(u1 == u2);
        }
    }
    assert(c1 == c2);
    assert(x =~= s.subrange(e1.len() as int, s.len() as int));
    assert(y =~= s.subrange(e2.len() as int, s.len() as int));
}

proof fn lemma_escaped_then_quote(a: Seq<char>, b: Seq<char>, x: Seq<char>, y: Seq<char>)
    requires
        json_escaped(a) + (seq!['"'] + x) == json_escaped(b) + (seq!['"'] + y),
    ensures
        a == b,
        x == y,
    decreases a.len(),
{
    if a.len() == 0 {
        if b.len() > 0 {
            lemma_escape_not_quote(b[0]);
            let s = json_escaped(b) + (seq!['"'] + y);
            assert(json_escaped(b) == json_escape(b[0]) + json_escaped(b.drop_first()));
            assert(s[0] == json_escape(b[0])[0]);
            assert((json_escaped(a) + (seq!['"'] + x))[0] == '"');
            assert(false);
        }
        assert(json_escaped(a) + (seq!['"'] + x) =~= seq!['"'] + x);
        assert(json_escaped(b) + (seq!['"'] + y) =~= seq!['"'] + y);
        assert(x =~= (seq!['"'] + x).drop_first());
        assert(y =~= (seq!['"'] + y).drop_first());
        assert(a =~= b);
    } else if b.len() == 0 {
        lemma_escape_not_quote(a[0]);
        let s = json_escaped(a) + (seq!['"'] + x);
        assert(json_escaped(a) == json_escape(a[0]) + json_escaped(a.drop_first()));
        assert(s[0] == json_escape(a[0])[0]);
        assert((json_escaped(b) + (seq!['"'] + y))[0] == '"');
        assert(false);
    } else {
        let ra = json_escaped(a.drop_first()) + (seq!['"'] + x);
        let rb = json_escaped(b.drop_first()) + (seq!['"'] + y);
        assert(json_escaped(a) + (seq!['"'] + x) =~= json_escape(a[0]) + ra);
        assert(json_escaped(b) + (seq!['"'] + y) =~= json_escape(b[0]) + rb);
        lemma_escape_prefix_free(a[0], b[0], ra, rb);
        lemma_escaped_then_quote(a.drop_first(), b.drop_first(), x, y);
        assert(a =~= seq![a[0]] + a.drop_first());
        assert(b =~= seq![b[0]] + b.drop_first());
    }
}

/// A JSON string that serde_json writes ends where it ends: what follows it
/// and the string itself are determined.
proof fn lemma_string_text_prefix_free(a: Seq<char>, b: Seq<char>, x: Seq<char>, y: Seq<char>)
    requires
        json_string_text(a) + x == json_string_text(b) + y,
    ensures
        a == b,
        x == y,
{
    let s1 = json_string_text(a) + x;
    let s2 = json_string_text(b) + y;
    assert(s1.drop_first() =~= json_escaped(a) + (seq!['"'] + x));
    assert(s2.drop_first() =~= json_escaped(b) + (seq!['"'] + y));
    lemma_escaped_then_quote(a, b, x, y);
}

proof fn lemma_items_text_injective(d: Seq<Seq<char>>, e: Seq<Seq<char>>, x: Seq<char>, y: Seq<char>)
    requires
        json_items_text(d) + (seq![']'] + x) == json_items_text(e) + (seq![']'] + y),
    ensures
        d == e,
        x == y,
    decreases d.len(),
{
    let s1 = json_items_text(d) + (seq![']'] + x);
    let s2 = json_items_text(e) + (seq![']'] + y);
    if d.len() == 0 {
        assert(s1 =~= seq![']'] + x);
        if e.len() > 0 {
            assert(s2[0] == '"');
            assert(false);
        }
        assert(x =~= s1.drop_first());
        assert(y =~= s2.drop_first());
        assert(d =~= e);
    } else if e.len() == 0 {
        assert(s2 =~= seq![']'] + y);
        assert(s1[0] == '"');
        assert(false);
    } else {
        let r1 = if d.len() == 1 {
            seq![']'] + x
        } else {
            seq![','] + (json_items_text(d.drop_first()) + (seq![']'] + x))
        };
        let r2 = if e.len() == 1 {
            seq![']'] + y
        } else {
            seq![','] + (json_items_text(e.drop_first()) + (seq![']'] + y))
        };
        assert(s1 =~= json_string_text(d[0]) + r1);
        assert(s2 =~= json_string_text(e[0]) + r2);
        lemma_string_text_prefix_free(d[0], e[0], r1, r2);
        assert(r1[0] == r2[0]);
        if d.len() == 1 {
            assert(e.len() == 1);
            assert(x =~= r1.drop_first());
            assert(y =~= r2.drop_first());
            assert(d =~= e);
        } else {
            assert(e.len() != 1);
            assert(r1.drop_first() =~= json_items_text(d.drop_first()) + (seq![']'] + x));
            assert(r2.drop_first() =~= json_items_text(e.drop_first()) + (seq![']'] + y));
            lemma_items_text_injective(d.drop_first(), e.drop_first(), x, y);
            assert(d =~= seq![d[0]] + d.drop_first());
            assert(e =~= seq![e[0]] + e.drop_first());
        }
    }
}

/// Two different lists of strings never have the same JSON text.
pub proof fn lemma_json_list_text_injective(d: Seq<Seq<char>>, e: Seq<Seq<char>>)
    requires
        json_list_text(d) == json_list_text(e),
    ensures
        d == e,
{
    let s1 = json_list_text(d);
    let s2 = json_list_text(e);
    assert(s1.drop_first() =~= json_items_text(d) + (seq![']'] + Seq::<char>::empty()));
    assert(s2.drop_first() =~= json_items_text(e) + (seq![']'] + Seq::<char>::empty()));
    lemma_items_text_injective(d, e, Seq::empty(), Seq::empty());
}

/// `get_or_create_default` is stable: the row that it stores for a note
/// (`pinned_column` and `tags_column`) reads back through `note_from_row` as
/// that note, with the same pinned flag and the same tags, and a lookup that
/// finds the note returns it unchanged and creates nothing. So a second call
/// returns the note that the first one returned and writes nothing.
pub proof fn lemma_default_note_is_stable(n: Note)
    ensures
        (pinned_value(n.pinned) != 0) == n.pinned,
        tags_of_column(json_list_text(n.tags.deep_view())) == n.tags.deep_view(),
        spec_resolve_default(Some(n)) == DefaultNote::Found(n),
{
    let t = n.tags.deep_view();
    assert(json_list_text(t) == json_list_text(t));
    let c = choose|d: Seq<Seq<char>>| json_list_text(d) == json_list_text(t);
    lemma_json_list_text_injective(c, t);
}

/// The tags read from a column are the list that serde_json decodes from
/// it, whatever spacing or escapes the text uses; a text it does not decode
/// as a list of strings holds no tags. (A text that serde_json itself wrote
/// for a list is covered by `lemma_default_note_is_stable`; the decoding of
/// such a text is that list, as `decode_string_list` states.)
pub proof fn lemma_tags_follow_serde(json: Seq<char>)
    requires
        !(exists|d: Seq<Seq<char>>| json_list_text(d) == json),
    ensures
        json_string_list(json) matches Some(t) ==> tags_of_column(json) == t,
        json_string_list(json) is None ==> tags_of_column(json) == Seq::<Seq<char>>::empty(),
{
}

} // verus!
