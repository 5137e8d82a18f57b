use vstd::prelude::*;
use crate::error::AppResult;
use crate::text::same_text;

verus! {

/// Key under which the "always on top" flag is stored.
pub const KEY_ALWAYS_ON_TOP: &'static str = "always_on_top";
/// Key under which the "start with the OS" flag is stored.
pub const KEY_AUTOSTART: &'static str = "autostart";

/// The application's persisted settings.
#[derive(Debug, Clone)]
pub struct Settings {
    pub always_on_top: bool,
    pub autostart: bool,
}

impl Default for Settings {
    fn default() -> (s: Self)
        ensures
            !s.always_on_top,
            !s.autostart,
    {
        Settings { always_on_top: false, autostart: false }
    }
}

/// Storage of the settings, one boolean per key.
pub trait SettingsRepository: Send + Sync {
    /// Reads every setting; a key that was never stored reads as `false`.
    fn load(&self) -> AppResult<Settings>;

    /// Stores `value` under `key`, replacing what was stored there.
    fn set_bool(&self, key: &str, value: bool) -> AppResult<()>;
}

/// The characters that Unicode's `White_Space` property marks (what
/// `char::is_whitespace` and `str::trim` go by).
pub open spec fn is_white_space(c: char) -> bool {
    let u = c as u32;
    ||| 0x9 <= u <= 0xd
    ||| u == 0x20
    ||| u == 0x85
    ||| u == 0xa0
    ||| u == 0x1680
    ||| 0x2000 <= u <= 0x200a
    ||| u == 0x2028
    ||| u == 0x2029
    ||| u == 0x202f
    ||| u == 0x205f
    ||| u == 0x3000
}

/// `s` without its leading white space.
pub open spec fn trim_start(s: Seq<char>) -> Seq<char>
    decreases s.len(),
{
    if s.len() > 0 && is_white_space(s[0]) {
        trim_start(s.drop_first())
    } else {
        s
    }
}

/// `s` without its trailing white space.
pub open spec fn trim_end(s: Seq<char>) -> Seq<char>
    decreases s.len(),
{
    if s.len() > 0 && is_white_space(s.last()) {
        trim_end(s.drop_last())
    } else {
        s
    }
}

/// `s` without leading and trailing white space.
pub open spec fn trimmed(s: Seq<char>) -> Seq<char> {
    trim_end(trim_start(s))
}

/// ASCII upper-case letters mapped to lower case, every other character kept.
pub open spec fn ascii_lower(c: char) -> char {
    if 0x41 <= (c as u32) <= 0x5a {
        ((c as u32) + 32) as char
    } else {
        c
    }
}

/// How a stored text reads as a flag: after trimming white space and
/// lower-casing ASCII letters it is `true`, `1` or `yes`.
pub open spec fn spec_parse_bool(s: Seq<char>) -> bool {
    let t = trimmed(s).map_values(|c: char| ascii_lower(c));
    ||| t == seq!['t', 'r', 'u', 'e']
    ||| t == seq!['1']
    ||| t == seq!['y', 'e', 's']
}

/// The text that `set_bool` stores for a flag.
pub open spec fn stored_text(value: bool) -> Seq<char> {
    if value {
        seq!['t', 'r', 'u', 'e']
    } else {
        seq!['f', 'a', 'l', 's', 'e']
    }
}

proof fn lemma_trim_start_skip(s: Seq<char>, k: int)
    requires
        0 <= k <= s.len(),
        forall|j: int| 0 <= j < k ==> is_white_space(#[trigger] s[j]),
    ensures
        trim_start(s) == trim_start(s.subrange(k, s.len() as int)),
    decreases k,
{
    if k > 0 {
        lemma_trim_start_skip(s.drop_first(), k - 1);
        assert(s.drop_first().subrange(k - 1, s.drop_first().len() as int) =~= s.subrange(
            k,
            s.len() as int,
        ));
    } else {
        assert(s.subrange(0, s.len() as int) =~= s);
    }
}

proof fn lemma_trim_end_skip(s: Seq<char>, k: int)
    requires
        0 <= k <= s.len(),
        forall|j: int| k <= j < s.len() ==> is_white_space(#[trigger] s[j]),
    ensures
        trim_end(s) == trim_end(s.subrange(0, k)),
    decreases s.len() - k,
{
    if k < s.len() {
        lemma_trim_end_skip(s.drop_last(), k);
        assert(s.drop_last().subrange(0, k) =~= s.subrange(0, k));
    } else {
        assert(s.subrange(0, k) =~= s);
    }
}

fn white_space(c: char) -> (r: bool)
    ensures
        r == is_white_space(c),
{
    let u: u32 = c as u32;
    (0x9 <= u && u <= 0xd) || u == 0x20 || u == 0x85 || u == 0xa0 || u == 0x1680 || (0x2000 <= u
        && u <= 0x200a) || u == 0x2028 || u == 0x2029 || u == 0x202f || u == 0x205f || u == 0x3000
}

/// Whether `c` lower-cases (ASCII only) to `t`.
fn lowers_to(c: char, t: char) -> (r: bool)
    ensures
        r == (ascii_lower(c) == t),
{
    let u: u32 = c as u32;
    if 0x41 <= u && u <= 0x5a {
        u + 32 == (t as u32)
    } else {
        c == t
    }
}

/// Whether `s[from..to]`, lower-cased, is the word `w`.
fn span_is_word(s: &str, from: usize, to: usize, w: &str) -> (r: bool)
    requires
        from <= to <= s@.len(),
    ensures
        r == (s@.subrange(from as int, to as int).map_values(|c: char| ascii_lower(c)) == w@),
{
    let ghost t = s@.subrange(from as int, to as int).map_values(|c: char| ascii_lower(c));
    let m: usize = w.unicode_len();
    if to - from != m {
        assert(t.len() != w@.len());
        return false;
    }
    let mut k: usize = 0;
    while k < m
        invariant
            from <= to <= s@.len(),
            to - from == m,
            m == w@.len(),
            k <= m,
            t == s@.subrange(from as int, to as int).map_values(|c: char| ascii_lower(c)),
            forall|j: int| 0 <= j < k ==> t[j] == w@[j],
        decreases m - k,
    {
        if !lowers_to(s.get_char(from + k), w.get_char(k)) {
            assert(t[k as int] != w@[k as int]);
            return false;
        }
        k = k + 1;
    }
    assert(t =~= w@);
    true
}

/// How the settings store reads a stored text as a flag: `true`, `1` or
/// `yes`, in any ASCII case and with surrounding white space, read as `true`;
/// any other text reads as `false`.
pub fn parse_bool(s: &str) -> (r: bool)
    ensures
        r == spec_parse_bool(s@),
{
    let n: usize = s.unicode_len();
    let mut i: usize = 0;
    while i < n && white_space(s.get_char(i))
        invariant
            n == s@.len(),
            i <= n,
            forall|j: int| 0 <= j < i ==> is_white_space(#[trigger] s@[j]),
        decreases n - i,
    {
        i = i + 1;
    }
    let mut e: usize = n;
    while e > i && white_space(s.get_char(e - 1))
        invariant
            n == s@.len(),
            i <= e <= n,
            forall|j: int| e <= j < n ==> is_white_space(#[trigger] s@[j]),
        decreases e - i,
    {
        e = e - 1;
    }
    proof {
        lemma_trim_start_skip(s@, i as int);
        let rest = s@.subrange(i as int, n as int);
        if i < n {
            assert(rest[0] == s@[i as int]);
            assert(!is_white_space(rest[0]));
        }
        assert(trim_start(s@) == rest);
        lemma_trim_end_skip(rest, e - i);
        assert(rest.subrange(0, e - i) =~= s@.subrange(i as int, e as int));
        if e > i {
            assert(s@.subrange(i as int, e as int).last() == s@[e - 1]);
        }
        assert(trimmed(s@) == s@.subrange(i as int, e as int));
        reveal_strlit("true");
        reveal_strlit("1");
        reveal_strlit("yes");
        assert("true"@ =~= seq!['t', 'r', 'u', 'e']);
        assert("1"@ =~= seq!['1']);
        assert("yes"@ =~= seq!['y', 'e', 's']);
    }
    span_is_word(s, i, e, "true") || span_is_word(s, i, e, "1") || span_is_word(s, i, e, "yes")
}


/// What a setting reads as, given the text stored under its key (`None`
/// when nothing is stored or the lookup failed) and the value it defaults to.
pub open spec fn spec_read_flag(stored: Option<Seq<char>>, default: bool) -> bool {
    match stored {
        Some(t) => spec_parse_bool(t),
        None => default,
    }
}

/// The text that is stored for a flag: `true` or `false`.
pub fn bool_text(value: bool) -> (r: &'static str)
    ensures
        r@ == stored_text(value),
{
    proof {
        reveal_strlit("true");
        reveal_strlit("false");
    }
    if value {
        let t = "true";
        assert(t@ =~= stored_text(true));
        t
    } else {
        let f = "false";
        assert(f@ =~= stored_text(false));
        f
    }
}

/// Reads a flag from the text stored under its key: the stored text decides
/// when there is one, else `default`.
pub fn read_flag(stored: Option<&str>, default: bool) -> (r: bool)
    ensures
        r == spec_read_flag(
            match stored {
                Some(t) => Some(t@),
                None => None,
            },
            default,
        ),
{
    match stored {
        Some(t) => parse_bool(t),
        None => default,
    }
}

/// The settings as `load` reads them from the texts stored under
/// `always_on_top` and `autostart`; each defaults to `false`.
pub fn settings_from_stored(always_on_top: Option<&str>, autostart: Option<&str>) -> (s: Settings)
    ensures
        s.always_on_top == spec_read_flag(
            match always_on_top {
                Some(t) => Some(t@),
                None => None,
            },
            false,
        ),
        s.autostart == spec_read_flag(
            match autostart {
                Some(t) => Some(t@),
                None => None,
            },
            false,
        ),
{
    Settings {
        always_on_top: read_flag(always_on_top, false),
        autostart: read_flag(autostart, false),
    }
}

/// A flag that was stored reads back as the value that was stored, whatever
/// the key's default.
pub proof fn lemma_stored_flag_reads_back(value: bool, default: bool)
    ensures
        spec_read_flag(Some(stored_text(value)), default) == value,
{
    let t = stored_text(value);
    assert(trim_start(t) == t);
    assert(trim_end(t) == t);
    let l = t.map_values(|c: char| ascii_lower(c));
    assert(l =~= t);
    if !value {
        assert(l.len() == 5);
        assert(l != seq!['t', 'r', 'u', 'e']);
        assert(l != seq!['1']);
        assert(l != seq!['y', 'e', 's']);
    }
}

/// What changing a setting does to the desktop shell besides storing it.
pub enum SettingEffect {
    /// Put the main window on top of others, or stop doing so.
    SetAlwaysOnTop(bool),
    /// Register the application to start with the OS.
    EnableAutostart,
    /// Stop starting the application with the OS.
    DisableAutostart,
    /// Nothing besides storing the value.
    NoEffect,
}

/// The effect of setting `key` to `value`.
pub fn side_effect_for(key: &str, value: bool) -> (e: SettingEffect)
    ensures
        key@ == KEY_ALWAYS_ON_TOP@ ==> e == SettingEffect::SetAlwaysOnTop(value),
        key@ == KEY_AUTOSTART@ ==> e == (if value {
            SettingEffect::EnableAutostart
        } else {
            SettingEffect::DisableAutostart
        }),
        key@ != KEY_ALWAYS_ON_TOP@ && key@ != KEY_AUTOSTART@ ==> e == SettingEffect::NoEffect,
{
    if same_text(key, KEY_ALWAYS_ON_TOP) {
        proof {
            reveal_strlit("always_on_top");
            reveal_strlit("autostart");
            assert(KEY_ALWAYS_ON_TOP@ != KEY_AUTOSTART@) by {
                assert(KEY_ALWAYS_ON_TOP@[1] != KEY_AUTOSTART@[1]);
            }
        }
        SettingEffect::SetAlwaysOnTop(value)
    } else if same_text(key, KEY_AUTOSTART) {
        if value {
            SettingEffect::EnableAutostart
        } else {
            SettingEffect::DisableAutostart
        }
    } else {
        SettingEffect::NoEffect
    }
}

/// The value that toggling "always on top" stores, given the current one.
pub fn toggled_always_on_top(current: bool) -> (next: bool)
    ensures
        next == !current,
{
    !current
}

/// ASCII lower-case letters mapped to upper case, every other character kept
/// (what `str::to_ascii_uppercase` does to each character).
pub open spec fn ascii_upper(c: char) -> char {
    if 0x61 <= (c as u32) <= 0x7a {
        ((c as u32) - 32) as char
    } else {
        c
    }
}

/// Every character of `s` is white space.
pub open spec fn all_white_space(s: Seq<char>) -> bool {
    forall|k: int| 0 <= k < s.len() ==> is_white_space(#[trigger] s[k])
}

proof fn lemma_trim_start_after_white_space(pre: Seq<char>, x: Seq<char>)
    requires
        all_white_space(pre),
    ensures
        trim_start(pre + x) == trim_start(x),
    decreases pre.len(),
{
    if pre.len() == 0 {
        assert(pre + x =~= x);
    } else {
        assert((pre + x)[0] == pre[0]);
        assert((pre + x).drop_first() =~= pre.drop_first() + x);
        lemma_trim_start_after_white_space(pre.drop_first(), x);
    }
}

proof fn lemma_trim_end_before_white_space(y: Seq<char>, post: Seq<char>)
    requires
        all_white_space(post),
    ensures
        trim_end(y + post) == trim_end(y),
    decreases post.len(),
{
    if post.len() == 0 {
        assert(y + post =~= y);
    } else {
        assert((y + post).last() == post.last());
        assert((y + post).drop_last() =~= y + post.drop_last());
        lemma_trim_end_before_white_space(y, post.drop_last());
    }
}

proof fn lemma_trim_start_append_white_space(s: Seq<char>, post: Seq<char>)
    requires
        all_white_space(post),
    ensures
        trim_start(s + post) == (if trim_start(s).len() > 0 {
            trim_start(s) + post
        } else {
            Seq::<char>::empty()
        }),
    decreases s.len(),
{
    if s.len() == 0 {
        assert(s + post =~= post + Seq::<char>::empty());
        lemma_trim_start_after_white_space(post, Seq::<char>::empty());
    } else if is_white_space(s[0]) {
        assert((s + post)[0] == s[0]);
        assert((s + post).drop_first() =~= s.drop_first() + post);
        lemma_trim_start_append_white_space(s.drop_first(), post);
    } else {
        assert((s + post)[0] == s[0]);
    }
}

/// White space around a text does not change how it trims.
proof fn lemma_trimmed_ignores_white_space(pre: Seq<char>, s: Seq<char>, post: Seq<char>)
    requires
        all_white_space(pre),
        all_white_space(post),
    ensures
        trimmed(pre + s + post) == trimmed(s),
{
    assert(pre + s + post =~= pre + (s + post));
    lemma_trim_start_after_white_space(pre, s + post);
    lemma_trim_start_append_white_space(s, post);
    if trim_start(s).len() > 0 {
        lemma_trim_end_before_white_space(trim_start(s), post);
    }
}

proof fn lemma_trim_start_map(s: Seq<char>, f: spec_fn(char) -> char)
    requires
        forall|c: char| #[trigger] is_white_space(f(c)) == is_white_space(c),
    ensures
        trim_start(s.map_values(f)) == trim_start(s).map_values(f),
    decreases s.len(),
{
    let m = s.map_values(f);
    if s.len() > 0 {
        assert(m[0] == f(s[0]));
        assert(is_white_space(f(s[0])) == is_white_space(s[0]));
        assert(m.drop_first() =~= s.drop_first().map_values(f));
        lemma_trim_start_map(s.drop_first(), f);
    } else {
        assert(m =~= s.map_values(f));
    }
}

proof fn lemma_trim_end_map(s: Seq<char>, f: spec_fn(char) -> char)
    requires
        forall|c: char| #[trigger] is_white_space(f(c)) == is_white_space(c),
    ensures
        trim_end(s.map_values(f)) == trim_end(s).map_values(f),
    decreases s.len(),
{
    let m = s.map_values(f);
    if s.len() > 0 {
        assert(m.last() == f(s.last()));
        assert(is_white_space(f(s.last())) == is_white_space(s.last()));
        assert(m.drop_last() =~= s.drop_last().map_values(f));
        lemma_trim_end_map(s.drop_last(), f);
    }
}

proof fn lemma_trimmed_map(s: Seq<char>, f: spec_fn(char) -> char)
    requires
        forall|c: char| #[trigger] is_white_space(f(c)) == is_white_space(c),
    ensures
        trimmed(s.map_values(f)) == trimmed(s).map_values(f),
{
    lemma_trim_start_map(s, f);
    lemma_trim_end_map(trim_start(s), f);
}

/// How a stored flag reads does not depend on the ASCII case of its letters
/// nor on white space around it; the two texts that `set_bool` stores read
/// as `true` and `false`.
pub proof fn lemma_parse_bool_ignores_case_and_white_space(
    s: Seq<char>,
    pre: Seq<char>,
    post: Seq<char>,
)
    requires
        all_white_space(pre),
        all_white_space(post),
    ensures
        spec_parse_bool(s.map_values(|c: char| ascii_upper(c))) == spec_parse_bool(s),
        spec_parse_bool(s.map_values(|c: char| ascii_lower(c))) == spec_parse_bool(s),
        spec_parse_bool(pre + s + post) == spec_parse_bool(s),
        spec_parse_bool(stored_text(true)),
        !spec_parse_bool(stored_text(false)),
{
    let low = |c: char| ascii_lower(c);
    let up = |c: char| ascii_upper(c);
    let t = trimmed(s);
    assert forall|c: char| #[trigger] is_white_space(up(c)) == is_white_space(c) by {}
    assert forall|c: char| #[trigger] is_white_space(low(c)) == is_white_space(c) by {}
    lemma_trimmed_map(s, up);
    lemma_trimmed_map(s, low);
    assert(t.map_values(up).map_values(low) =~= t.map_values(low));
    assert(t.map_values(low).map_values(low) =~= t.map_values(low));
    lemma_trimmed_ignores_white_space(pre, s, post);
    lemma_stored_flag_reads_back(true, false);
    lemma_stored_flag_reads_back(false, false);
}

/// `w` is one of the words that read as `true`, each letter in either ASCII
/// case: `true`, `1` or `yes`.
pub open spec fn is_true_word(w: Seq<char>) -> bool {
    ||| (w.len() == 4 && (w[0] == 't' || w[0] == 'T') && (w[1] == 'r' || w[1] == 'R') && (w[2]
        == 'u' || w[2] == 'U') && (w[3] == 'e' || w[3] == 'E'))
    ||| (w.len() == 1 && w[0] == '1')
    ||| (w.len() == 3 && (w[0] == 'y' || w[0] == 'Y') && (w[1] == 'e' || w[1] == 'E') && (w[2]
        == 's' || w[2] == 'S'))
}

proof fn lemma_trim_start_split(s: Seq<char>)
    ensures
        exists|pre: Seq<char>| all_white_space(pre) && s == pre + trim_start(s),
        trim_start(s).len() > 0 ==> !is_white_space(trim_start(s)[0]),
    decreases s.len(),
{
    if s.len() > 0 && is_white_space(s[0]) {
        lemma_trim_start_split(s.drop_first());
        let pre = choose|pre: Seq<char>|
            all_white_space(pre) && s.drop_first() == pre + trim_start(s.drop_first());
        let p2 = seq![s[0]] + pre;
        assert(all_white_space(p2));
        assert(trim_start(s) == trim_start(s.drop_first()));
        assert(s =~= seq![s[0]] + s.drop_first());
        assert(s =~= p2 + trim_start(s));
    } else {
        let e = Seq::<char>::empty();
        assert(all_white_space(e));
        assert(s =~= e + trim_start(s));
    }
}

proof fn lemma_trim_end_split(s: Seq<char>)
    ensures
        exists|post: Seq<char>| all_white_space(post) && s == trim_end(s) + post,
        trim_end(s).len() > 0 ==> !is_white_space(trim_end(s).last()),
    decreases s.len(),
{
    if s.len() > 0 && is_white_space(s.last()) {
        lemma_trim_end_split(s.drop_last());
        let post = choose|post: Seq<char>|
            all_white_space(post) && s.drop_last() == trim_end(s.drop_last()) + post;
        let p2 = post.push(s.last());
        assert(all_white_space(p2));
        assert(trim_end(s) == trim_end(s.drop_last()));
        assert(s =~= s.drop_last().push(s.last()));
        assert(s =~= trim_end(s) + p2);
    } else {
        let e = Seq::<char>::empty();
        assert(all_white_space(e));
        assert(s =~= trim_end(s) + e);
    }
}

proof fn lemma_lower_letter(c: char, l: char, u: char)
    requires
        0x61 <= (l as u32) <= 0x7a,
        (u as u32) + 32 == (l as u32),
        ascii_lower(c) == l,
    ensures
        c == l || c == u,
{
    if 0x41 <= (c as u32) <= 0x5a {
        assert((c as u32) + 32 == (l as u32));
        assert((c as u32) == (u as u32));
    }
}

proof fn lemma_lower_is_word(w: Seq<char>)
    ensures
        is_true_word(w) <==> {
            let t = w.map_values(|c: char| ascii_lower(c));
            ||| t == seq!['t', 'r', 'u', 'e']
            ||| t == seq!['1']
            ||| t == seq!['y', 'e', 's']
        },
{
    let t = w.map_values(|c: char| ascii_lower(c));
    assert(t.len() == w.len());
    assert forall|i: int| 0 <= i < w.len() implies #[trigger] t[i] == ascii_lower(w[i]) by {}
    if t == seq!['t', 'r', 'u', 'e'] {
        assert(t[0] == 't' && t[1] == 'r' && t[2] == 'u' && t[3] == 'e');
        assert(ascii_lower(w[0]) == 't' && ascii_lower(w[1]) == 'r' && ascii_lower(w[2]) == 'u'
            && ascii_lower(w[3]) == 'e');
        lemma_lower_letter(w[0], 't', 'T');
        lemma_lower_letter(w[1], 'r', 'R');
        lemma_lower_letter(w[2], 'u', 'U');
        lemma_lower_letter(w[3], 'e', 'E');
        assert(is_true_word(w));
    }
    if t == seq!['1'] {
        assert(t[0] == '1');
        assert(ascii_lower(w[0]) == '1');
        assert(is_true_word(w));
    }
    if t == seq!['y', 'e', 's'] {
        assert(t[0] == 'y' && t[1] == 'e' && t[2] == 's');
        assert(ascii_lower(w[0]) == 'y' && ascii_lower(w[1]) == 'e' && ascii_lower(w[2]) == 's');
        lemma_lower_letter(w[0], 'y', 'Y');
        lemma_lower_letter(w[1], 'e', 'E');
        lemma_lower_letter(w[2], 's', 'S');
        assert(is_true_word(w));
    }
    if w.len() == 4 && is_true_word(w) {
        assert(t =~= seq!['t', 'r', 'u', 'e']);
    }
    if w.len() == 1 && is_true_word(w) {
        assert(t =~= seq!['1']);
    }
    if w.len() == 3 && is_true_word(w) {
        assert(t =~= seq!['y', 'e', 's']);
    }
}

/// A stored text reads as `true` exactly when it is `true`, `1` or `yes`, in
/// any ASCII case, with nothing around it but white space; every other text
/// (`false`, `0`, `no`, any other word, an empty text) reads as `false`.
pub proof fn lemma_parse_bool_true_words(s: Seq<char>)
    ensures
        spec_parse_bool(s) <==> exists|pre: Seq<char>, w: Seq<char>, post: Seq<char>|
            all_white_space(pre) && all_white_space(post) && is_true_word(w) && s == pre + w
                + post,
{
    let t = trimmed(s);
    lemma_trim_start_split(s);
    lemma_trim_end_split(trim_start(s));
    let pre = choose|pre: Seq<char>| all_white_space(pre) && s == pre + trim_start(s);
    let post = choose|post: Seq<char>|
        all_white_space(post) && trim_start(s) == trim_end(trim_start(s)) + post;
    assert(s =~= pre + t + post);
    lemma_lower_is_word(t);
    if spec_parse_bool(s) {
        assert(is_true_word(t));
        assert(all_white_space(pre) && all_white_space(post) && is_true_word(t) && s == pre + t
            + post);
    }
    if exists|pre: Seq<char>, w: Seq<char>, post: Seq<char>|
        all_white_space(pre) && all_white_space(post) && is_true_word(w) && s == pre + w + post {
        let (p1, w, p2) = choose|pre: Seq<char>, w: Seq<char>, post: Seq<char>|
            all_white_space(pre) && all_white_space(post) && is_true_word(w) && s == pre + w
                + post;
        lemma_trimmed_ignores_white_space(p1, w, p2);
        assert(!is_white_space(w[0]));
        assert(!is_white_space(w.last()));
        assert(trim_start(w) == w);
        assert(trim_end(w) == w);
        lemma_lower_is_word(w);
    }
}

/// `no`, `false`, `0` and the empty text read as `false`.
pub proof fn lemma_parse_bool_false_words()
    ensures
        !spec_parse_bool(seq!['n', 'o']),
        !spec_parse_bool(seq!['f', 'a', 'l', 's', 'e']),
        !spec_parse_bool(seq!['0']),
        !spec_parse_bool(Seq::empty()),
{
    lemma_stored_flag_reads_back(false, false);
    let no = seq!['n', 'o'];
    assert(trim_start(no) == no);
    assert(trim_end(no) == no);
    assert(no.map_values(|c: char| ascii_lower(c)) =~= no);
    let zero = seq!['0'];
    assert(trim_start(zero) == zero);
    assert(trim_end(zero) == zero);
    assert(zero.map_values(|c: char| ascii_lower(c)) =~= zero);
    let e = Seq::<char>::empty();
    assert(e.map_values(|c: char| ascii_lower(c)) =~= e);
}

} // verus!
