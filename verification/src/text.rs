//! Text as sequences of characters: trimming, searching, replacing, splitting,
//! joining, ordering and decimal numbers, each stated over `Seq<char>`.
use vstd::prelude::*;
use vstd::string::*;
use vstd::utf8::encode_utf8;

pub mod laws;

verus! {

/// `String::push` appends one character to the end of the string.
pub assume_specification[ String::push ](buffer: &mut String, ch: char)
    ensures
        final(buffer)@ == old(buffer)@.push(ch),
;

/// The views of a sequence of strings.
pub open spec fn texts(items: Seq<String>) -> Seq<Seq<char>> {
    Seq::new(items.len(), |i: int| items[i]@)
}

/// The view of an optional string.
pub open spec fn opt_text(item: Option<String>) -> Option<Seq<char>> {
    match item {
        Some(text) => Some(text@),
        None => None,
    }
}

/// The view of an optional string slice.
pub open spec fn opt_str(item: Option<&str>) -> Option<Seq<char>> {
    match item {
        Some(text) => Some(text@),
        None => None,
    }
}

/// The characters of `text`, in order.
pub fn chars_of(text: &str) -> (chars: Vec<char>)
    ensures
        chars@ == text@,
{
    let mut chars: Vec<char> = Vec::new();
    for c in iter: text.chars()
        invariant
            iter.seq() == text@,
            chars@ == text@.take(iter.index()),
    {
        chars.push(c);
        assert(chars@ =~= text@.take(iter.index() + 1));
    }
    assert(text@.take(text@.len() as int) =~= text@);
    chars
}

/// The string made of `chars[from..to]`.
pub fn string_of(chars: &Vec<char>, from: usize, to: usize) -> (text: String)
    requires
        from <= to <= chars@.len(),
    ensures
        text@ == chars@.subrange(from as int, to as int),
{
    let mut text = String::new();
    let mut i: usize = from;
    while i < to
        invariant
            from <= i <= to <= chars@.len(),
            text@ == chars@.subrange(from as int, i as int),
        decreases to - i,
    {
        text.push(chars[i]);
        i += 1;
        assert(chars@.subrange(from as int, i as int) =~= chars@.subrange(
            from as int,
            i as int - 1,
        ).push(chars@[i as int - 1]));
    }
    text
}

/// Whether two texts hold the same characters.
pub fn same(a: &str, b: &str) -> (r: bool)
    ensures
        r == (a@ == b@),
{
    let left = a.to_owned();
    let right = b.to_owned();
    left == right
}

/// Whether two lists hold the same texts in the same order.
pub fn same_texts(a: &Vec<String>, b: &Vec<String>) -> (r: bool)
    ensures
        r == (texts(a@) == texts(b@)),
{
    if a.len() != b.len() {
        assert(texts(a@).len() != texts(b@).len());
        return false;
    }
    let mut i: usize = 0;
    while i < a.len()
        invariant
            i <= a@.len(),
            a@.len() == b@.len(),
            forall|j: int| 0 <= j < i ==> (#[trigger] a@[j])@ == b@[j]@,
        decreases a@.len() - i,
    {
        if !same(a[i].as_str(), b[i].as_str()) {
            assert(texts(a@)[i as int] != texts(b@)[i as int]);
            return false;
        }
        i += 1;
    }
    assert(texts(a@) =~= texts(b@));
    true
}

/// Whether `items` holds `wanted`.
pub fn holds(items: &Vec<String>, wanted: &str) -> (r: bool)
    ensures
        r == texts(items@).contains(wanted@),
{
    let mut i: usize = 0;
    while i < items.len()
        invariant
            i <= items.len(),
            forall|j: int| 0 <= j < i ==> texts(items@)[j] != wanted@,
        decreases items.len() - i,
    {
        if same(items[i].as_str(), wanted) {
            assert(texts(items@)[i as int] == wanted@);
            return true;
        }
        i += 1;
    }
    false
}

/// An optional text, borrowed.
pub fn as_str_opt(text: &Option<String>) -> (r: Option<&str>)
    ensures
        opt_str(r) == opt_text(*text),
{
    match text {
        Some(text) => Some(text.as_str()),
        None => None,
    }
}

pub fn clone_opt(item: &Option<String>) -> (r: Option<String>)
    ensures
        opt_text(r) == opt_text(*item),
{
    match item {
        Some(text) => Some(text.clone()),
        None => None,
    }
}

pub fn clone_texts(items: &Vec<String>) -> (r: Vec<String>)
    ensures
        texts(r@) == texts(items@),
{
    let mut out: Vec<String> = Vec::new();
    let mut i: usize = 0;
    while i < items.len()
        invariant
            i <= items.len(),
            out.len() == i,
            forall|j: int| 0 <= j < i ==> out@[j]@ == items@[j]@,
        decreases items.len() - i,
    {
        out.push(items[i].clone());
        i += 1;
    }
    assert(texts(out@) =~= texts(items@));
    out
}

/// Pushing a string pushes its view.
pub broadcast proof fn texts_push(items: Seq<String>, item: String)
    ensures
        #[trigger] texts(items.push(item)) == texts(items).push(item@),
{
    assert(texts(items.push(item)) =~= texts(items).push(item@));
}

pub broadcast proof fn texts_empty()
    ensures
        #[trigger] texts(Seq::<String>::empty()) == Seq::<Seq<char>>::empty(),
{
    assert(texts(Seq::<String>::empty()) =~= Seq::<Seq<char>>::empty());
}

pub broadcast group group_texts {
    texts_push,
    texts_empty,
}

// ---------------------------------------------------------------- joining

/// The concatenation of two texts.
pub fn cat2(a: &str, b: &str) -> (r: String)
    ensures
        r@ == a@ + b@,
{
    let mut out = a.to_owned();
    out.append(b);
    out
}

pub fn cat3(a: &str, b: &str, c: &str) -> (r: String)
    ensures
        r@ == a@ + b@ + c@,
{
    let mut out = a.to_owned();
    out.append(b);
    out.append(c);
    out
}

pub fn cat4(a: &str, b: &str, c: &str, d: &str) -> (r: String)
    ensures
        r@ == a@ + b@ + c@ + d@,
{
    let mut out = cat3(a, b, c);
    out.append(d);
    out
}

pub fn cat5(a: &str, b: &str, c: &str, d: &str, e: &str) -> (r: String)
    ensures
        r@ == a@ + b@ + c@ + d@ + e@,
{
    let mut out = cat4(a, b, c, d);
    out.append(e);
    out
}

pub fn cat6(a: &str, b: &str, c: &str, d: &str, e: &str, f: &str) -> (r: String)
    ensures
        r@ == a@ + b@ + c@ + d@ + e@ + f@,
{
    let mut out = cat5(a, b, c, d, e);
    out.append(f);
    out
}

pub fn cat7(a: &str, b: &str, c: &str, d: &str, e: &str, f: &str, g: &str) -> (r: String)
    ensures
        r@ == a@ + b@ + c@ + d@ + e@ + f@ + g@,
{
    let mut out = cat6(a, b, c, d, e, f);
    out.append(g);
    out
}

/// The texts of `parts` with `sep` between each two neighbours.
pub open spec fn joined(parts: Seq<Seq<char>>, sep: Seq<char>) -> Seq<char>
    decreases parts.len(),
{
    if parts.len() == 0 {
        Seq::empty()
    } else if parts.len() == 1 {
        parts[0]
    } else {
        joined(parts.drop_last(), sep) + sep + parts.last()
    }
}

/// The first of joined parts stands at the start.
pub proof fn joined_first(parts: Seq<Seq<char>>, sep: Seq<char>)
    requires
        parts.len() >= 2,
    ensures
        joined(parts, sep) == parts[0] + sep + joined(parts.skip(1), sep),
    decreases parts.len(),
{
    let d = parts.drop_last();
    let rest = parts.skip(1);
    if parts.len() == 2 {
        assert(joined(d, sep) == parts[0]);
        assert(joined(rest, sep) == parts[1]);
    } else {
        joined_first(d, sep);
        assert(d.skip(1) =~= rest.drop_last());
        assert(rest.last() == parts.last());
        assert(joined(parts, sep) =~= parts[0] + sep + (joined(rest.drop_last(), sep) + sep
            + rest.last()));
    }
}

/// Joins the strings from position `from` on.
pub fn join_from(parts: &Vec<String>, from: usize, sep: &str) -> (r: String)
    requires
        from <= parts@.len(),
    ensures
        r@ == joined(texts(parts@).skip(from as int), sep@),
{
    let mut out = String::new();
    let mut i: usize = from;
    let ghost all = texts(parts@).skip(from as int);
    assert(all.take(0) =~= Seq::<Seq<char>>::empty());
    while i < parts.len()
        invariant
            from <= i <= parts.len(),
            all == texts(parts@).skip(from as int),
            out@ == joined(all.take(i - from), sep@),
        decreases parts.len() - i,
    {
        let ghost done = all.take(i - from);
        let ghost next = all.take(i - from + 1);
        assert(next.drop_last() =~= done);
        assert(next.last() == parts@[i as int]@);
        if i > from {
            out.append(sep);
            out.append(parts[i].as_str());
        } else {
            assert(done =~= Seq::<Seq<char>>::empty());
            out.append(parts[i].as_str());
            assert(out@ =~= parts@[i as int]@);
        }
        i += 1;
    }
    assert(all.take(all.len() as int) =~= all);
    out
}

pub fn join(parts: &Vec<String>, sep: &str) -> (r: String)
    ensures
        r@ == joined(texts(parts@), sep@),
{
    assert(texts(parts@).skip(0) =~= texts(parts@));
    join_from(parts, 0, sep)
}

// ---------------------------------------------------------------- characters

/// The characters with Unicode's White_Space property.
pub open spec fn is_space(c: char) -> bool {
    let n = c as u32;
    ||| 0x9 <= n <= 0xd
    ||| n == 0x20
    ||| n == 0x85
    ||| n == 0xa0
    ||| n == 0x1680
    ||| 0x2000 <= n <= 0x200a
    ||| n == 0x2028
    ||| n == 0x2029
    ||| n == 0x202f
    ||| n == 0x205f
    ||| n == 0x3000
}

pub fn char_is_space(c: char) -> (r: bool)
    ensures
        r == is_space(c),
{
    let n: u32 = c as u32;
    (0x9 <= n && n <= 0xd) || n == 0x20 || n == 0x85 || n == 0xa0 || n == 0x1680 || (0x2000 <= n
        && n <= 0x200a) || n == 0x2028 || n == 0x2029 || n == 0x202f || n == 0x205f || n == 0x3000
}

/// A set of characters that text is trimmed of or split at.
#[derive(Clone, Copy)]
pub enum CharSet {
    /// White space.
    Space,
    /// Line feed and carriage return.
    LineEnd,
    /// The separators of a list of words: `,`, `;`, line feed, tab and blank.
    ListSep,
    /// The separators of a list of entries: `,`, `;` and line feed.
    EntrySep,
    /// One character.
    Only(char),
}

impl CharSet {
    pub open spec fn has(self, c: char) -> bool {
        match self {
            CharSet::Space => is_space(c),
            CharSet::LineEnd => c == '\n' || c == '\r',
            CharSet::ListSep => c == ',' || c == ';' || c == '\n' || c == '\t' || c == ' ',
            CharSet::EntrySep => c == ',' || c == ';' || c == '\n',
            CharSet::Only(only) => c == only,
        }
    }

    pub fn contains(self, c: char) -> (r: bool)
        ensures
            r == self.has(c),
    {
        match self {
            CharSet::Space => char_is_space(c),
            CharSet::LineEnd => c == '\n' || c == '\r',
            CharSet::ListSep => c == ',' || c == ';' || c == '\n' || c == '\t' || c == ' ',
            CharSet::EntrySep => c == ',' || c == ';' || c == '\n',
            CharSet::Only(only) => c == only,
        }
    }
}

pub open spec fn is_upper(c: char) -> bool {
    'A' <= c && c <= 'Z'
}

pub open spec fn is_lower(c: char) -> bool {
    'a' <= c && c <= 'z'
}

pub open spec fn is_digit(c: char) -> bool {
    '0' <= c && c <= '9'
}

/// ASCII letters and digits.
pub open spec fn is_alnum(c: char) -> bool {
    is_upper(c) || is_lower(c) || is_digit(c)
}

pub fn char_is_alpha(c: char) -> (r: bool)
    ensures
        r == (is_upper(c) || is_lower(c)),
{
    ('A' <= c && c <= 'Z') || ('a' <= c && c <= 'z')
}

pub fn char_is_alnum(c: char) -> (r: bool)
    ensures
        r == is_alnum(c),
{
    ('A' <= c && c <= 'Z') || ('a' <= c && c <= 'z') || ('0' <= c && c <= '9')
}

/// The ASCII lower case of a character; other characters stay.
pub open spec fn lower_char(c: char) -> char {
    if is_upper(c) {
        ((c as u8 + 32) as u8) as char
    } else {
        c
    }
}

/// The ASCII upper case of a character; other characters stay.
pub open spec fn upper_char(c: char) -> char {
    if is_lower(c) {
        ((c as u8 - 32) as u8) as char
    } else {
        c
    }
}

pub fn to_lower_char(c: char) -> (r: char)
    ensures
        r == lower_char(c),
{
    if 'A' <= c && c <= 'Z' {
        let n: u8 = c as u8;
        (n + 32) as char
    } else {
        c
    }
}

pub fn to_upper_char(c: char) -> (r: char)
    ensures
        r == upper_char(c),
{
    if 'a' <= c && c <= 'z' {
        let n: u8 = c as u8;
        (n - 32) as char
    } else {
        c
    }
}

/// The ASCII lower case of a text.
pub open spec fn lowered(s: Seq<char>) -> Seq<char> {
    Seq::new(s.len(), |i: int| lower_char(s[i]))
}

pub fn to_lower(text: &str) -> (r: String)
    ensures
        r@ == lowered(text@),
{
    let chars = chars_of(text);
    let mut out = String::new();
    let mut i: usize = 0;
    while i < chars.len()
        invariant
            i <= chars.len(),
            chars@ == text@,
            out@ == lowered(text@).take(i as int),
        decreases chars.len() - i,
    {
        out.push(to_lower_char(chars[i]));
        i += 1;
        assert(out@ =~= lowered(text@).take(i as int));
    }
    assert(lowered(text@).take(i as int) =~= lowered(text@));
    out
}

/// Whether two texts are the same up to ASCII case.
pub fn same_ignoring_case(a: &str, b: &str) -> (r: bool)
    ensures
        r == (lowered(a@) == lowered(b@)),
{
    let left = to_lower(a);
    let right = to_lower(b);
    left == right
}

// ---------------------------------------------------------------- trimming

pub open spec fn trim_start_by(s: Seq<char>, set: CharSet) -> Seq<char>
    decreases s.len(),
{
    if s.len() > 0 && set.has(s[0]) {
        trim_start_by(s.skip(1), set)
    } else {
        s
    }
}

pub open spec fn trim_end_by(s: Seq<char>, set: CharSet) -> Seq<char>
    decreases s.len(),
{
    if s.len() > 0 && set.has(s.last()) {
        trim_end_by(s.drop_last(), set)
    } else {
        s
    }
}

/// `s` without the characters of `set` at its two ends.
pub open spec fn trim_by(s: Seq<char>, set: CharSet) -> Seq<char> {
    trim_end_by(trim_start_by(s, set), set)
}

/// `s` without white space at its two ends.
pub open spec fn trimmed(s: Seq<char>) -> Seq<char> {
    trim_by(s, CharSet::Space)
}

/// Whether nothing but white space is in `s`.
pub open spec fn blank(s: Seq<char>) -> bool {
    trimmed(s).len() == 0
}

fn start_of(chars: &Vec<char>, set: CharSet) -> (start: usize)
    ensures
        start <= chars.len(),
        chars@.skip(start as int) == trim_start_by(chars@, set),
{
    let mut start: usize = 0;
    assert(chars@.skip(0) =~= chars@);
    while start < chars.len() && set.contains(chars[start])
        invariant
            start <= chars.len(),
            trim_start_by(chars@.skip(start as int), set) == trim_start_by(chars@, set),
        decreases chars.len() - start,
    {
        assert(chars@.skip(start as int).skip(1) =~= chars@.skip(start + 1));
        start += 1;
    }
    start
}

fn end_of(chars: &Vec<char>, start: usize, set: CharSet) -> (end: usize)
    requires
        start <= chars.len(),
    ensures
        start <= end <= chars.len(),
        chars@.subrange(start as int, end as int) == trim_end_by(chars@.skip(start as int), set),
{
    let mut end: usize = chars.len();
    assert(chars@.subrange(start as int, end as int) =~= chars@.skip(start as int));
    while end > start && set.contains(chars[end - 1])
        invariant
            start <= end <= chars.len(),
            trim_end_by(chars@.subrange(start as int, end as int), set) == trim_end_by(
                chars@.skip(start as int),
                set,
            ),
        decreases end - start,
    {
        assert(chars@.subrange(start as int, end as int).drop_last() =~= chars@.subrange(
            start as int,
            end - 1,
        ));
        end -= 1;
    }
    end
}

pub fn trim_text_by<'a>(text: &'a str, set: CharSet) -> (r: &'a str)
    ensures
        r@ == trim_by(text@, set),
{
    let chars = chars_of(text);
    let start: usize = start_of(&chars, set);
    let end: usize = end_of(&chars, start, set);
    text.substring_char(start, end)
}

pub fn trim_text_start_by<'a>(text: &'a str, set: CharSet) -> (r: &'a str)
    ensures
        r@ == trim_start_by(text@, set),
{
    let chars = chars_of(text);
    let start: usize = start_of(&chars, set);
    assert(text@.subrange(start as int, text@.len() as int) =~= text@.skip(start as int));
    text.substring_char(start, chars.len())
}

pub fn trim_text_end_by<'a>(text: &'a str, set: CharSet) -> (r: &'a str)
    ensures
        r@ == trim_end_by(text@, set),
{
    let chars = chars_of(text);
    let end: usize = end_of(&chars, 0, set);
    assert(text@.skip(0) =~= text@);
    text.substring_char(0, end)
}

/// The text without white space at its two ends.
pub fn trim<'a>(text: &'a str) -> (r: &'a str)
    ensures
        r@ == trimmed(text@),
{
    trim_text_by(text, CharSet::Space)
}

pub fn is_blank(text: &str) -> (r: bool)
    ensures
        r == blank(text@),
{
    trim(text).is_empty()
}

pub proof fn trim_start_shape(s: Seq<char>, set: CharSet)
    ensures
        trim_start_by(s, set).len() <= s.len(),
        trim_start_by(s, set) == s.skip(s.len() - trim_start_by(s, set).len()),
        trim_start_by(s, set).len() > 0 ==> !set.has(trim_start_by(s, set)[0]),
    decreases s.len(),
{
    if s.len() > 0 && set.has(s[0]) {
        trim_start_shape(s.skip(1), set);
        let t = trim_start_by(s.skip(1), set);
        assert(s.skip(1).skip(s.len() - 1 - t.len()) =~= s.skip(s.len() - t.len()));
    } else {
        assert(s.skip(0) =~= s);
    }
}

pub proof fn trim_end_shape(s: Seq<char>, set: CharSet)
    ensures
        trim_end_by(s, set).len() <= s.len(),
        trim_end_by(s, set) == s.take(trim_end_by(s, set).len() as int),
        trim_end_by(s, set).len() > 0 ==> !set.has(trim_end_by(s, set).last()),
    decreases s.len(),
{
    if s.len() > 0 && set.has(s.last()) {
        trim_end_shape(s.drop_last(), set);
        let t = trim_end_by(s.drop_last(), set);
        assert(s.drop_last().take(t.len() as int) =~= s.take(t.len() as int));
    } else {
        assert(s.take(s.len() as int) =~= s);
    }
}

/// A trimmed text has no character of the set at either end, so trimming it
/// again changes nothing.
pub proof fn trim_idempotent(s: Seq<char>, set: CharSet)
    ensures
        trim_by(trim_by(s, set), set) == trim_by(s, set),
        trim_by(s, set).len() <= s.len(),
        trim_by(s, set).len() > 0 ==> !set.has(trim_by(s, set)[0]) && !set.has(
            trim_by(s, set).last(),
        ),
{
    let a = trim_start_by(s, set);
    let b = trim_end_by(a, set);
    trim_start_shape(s, set);
    trim_end_shape(a, set);
    if b.len() > 0 {
        assert(b[0] == a[0]);
    }
    assert(trim_start_by(b, set) == b);
    assert(trim_end_by(b, set) == b);
}

// ---------------------------------------------------------------- searching

/// Whether `p` stands in `s` at position `i`.
pub open spec fn matches_at(s: Seq<char>, p: Seq<char>, i: int) -> bool {
    0 <= i && i + p.len() <= s.len() && s.subrange(i, i + p.len()) == p
}

/// The first position at or after `i` where `p` stands in `s`.
pub open spec fn find_from(s: Seq<char>, p: Seq<char>, i: int) -> Option<int>
    decreases s.len() + 1 - i,
{
    if i < 0 || i + p.len() > s.len() {
        None
    } else if matches_at(s, p, i) {
        Some(i)
    } else {
        find_from(s, p, i + 1)
    }
}

/// Whether `p` stands anywhere in `s`.
pub open spec fn holds_text(s: Seq<char>, p: Seq<char>) -> bool {
    find_from(s, p, 0) is Some
}

/// `find_from` gives the first match: it is a match, and none comes before it.
pub proof fn find_is_first(s: Seq<char>, p: Seq<char>, i: int)
    requires
        0 <= i,
    ensures
        match find_from(s, p, i) {
            Some(k) => i <= k && matches_at(s, p, k) && forall|j: int|
                i <= j < k ==> !matches_at(s, p, j),
            None => forall|j: int| i <= j ==> !matches_at(s, p, j),
        },
    decreases s.len() + 1 - i,
{
    if i + p.len() > s.len() {
    } else if matches_at(s, p, i) {
    } else {
        find_is_first(s, p, i + 1);
    }
}

fn chars_match_at(s: &Vec<char>, p: &Vec<char>, i: usize) -> (r: bool)
    ensures
        r == matches_at(s@, p@, i as int),
{
    if p.len() > s.len() || i > s.len() - p.len() {
        return false;
    }
    let mut j: usize = 0;
    while j < p.len()
        invariant
            j <= p.len(),
            i + p.len() <= s.len(),
            forall|k: int| 0 <= k < j ==> s@[i + k] == p@[k],
        decreases p.len() - j,
    {
        if s[i + j] != p[j] {
            assert(s@.subrange(i as int, i + p@.len())[j as int] != p@[j as int]);
            return false;
        }
        j += 1;
    }
    assert(s@.subrange(i as int, i + p@.len()) =~= p@);
    true
}

fn chars_find(s: &Vec<char>, p: &Vec<char>, from: usize) -> (r: Option<usize>)
    ensures
        match r {
            Some(i) => find_from(s@, p@, from as int) == Some(i as int),
            None => find_from(s@, p@, from as int) is None,
        },
{
    let mut i: usize = from;
    while p.len() <= s.len() && i <= s.len() - p.len()
        invariant
            find_from(s@, p@, from as int) == find_from(s@, p@, i as int),
        decreases s.len() + 1 - i,
    {
        if chars_match_at(s, p, i) {
            return Some(i);
        }
        if i == s.len() {
            assert(find_from(s@, p@, i + 1) is None);
            return None;
        }
        i += 1;
    }
    None
}

/// The position, in characters, of the first `p` in `text`.
pub fn find(text: &str, p: &str) -> (r: Option<usize>)
    ensures
        match r {
            Some(i) => find_from(text@, p@, 0) == Some(i as int) && i + p@.len() <= text@.len(),
            None => find_from(text@, p@, 0) is None,
        },
{
    let s = chars_of(text);
    let q = chars_of(p);
    proof {
        find_is_first(text@, p@, 0);
    }
    chars_find(&s, &q, 0)
}

pub fn contains(text: &str, p: &str) -> (r: bool)
    ensures
        r == holds_text(text@, p@),
{
    find(text, p).is_some()
}

/// Whether `text` starts with `p`.
pub fn starts_with(text: &str, p: &str) -> (r: bool)
    ensures
        r == matches_at(text@, p@, 0),
{
    let s = chars_of(text);
    let q = chars_of(p);
    chars_match_at(&s, &q, 0)
}

/// Whether `text` ends with `p`.
pub fn ends_with(text: &str, p: &str) -> (r: bool)
    ensures
        r == matches_at(text@, p@, text@.len() - p@.len()),
{
    let s = chars_of(text);
    let q = chars_of(p);
    if q.len() > s.len() {
        return false;
    }
    chars_match_at(&s, &q, s.len() - q.len())
}

/// What follows `p` where `s` starts with it.
pub open spec fn after_prefix(s: Seq<char>, p: Seq<char>) -> Option<Seq<char>> {
    if matches_at(s, p, 0) {
        Some(s.skip(p.len() as int))
    } else {
        None
    }
}

pub fn strip_prefix<'a>(text: &'a str, p: &str) -> (r: Option<&'a str>)
    ensures
        opt_str(r) == after_prefix(text@, p@),
{
    if starts_with(text, p) {
        let from: usize = p.unicode_len();
        let to: usize = text.unicode_len();
        assert(text@.subrange(from as int, to as int) =~= text@.skip(from as int));
        Some(text.substring_char(from, to))
    } else {
        None
    }
}

/// What stands before and after the first `p` in `s`.
pub open spec fn split_at_first(s: Seq<char>, p: Seq<char>) -> Option<(Seq<char>, Seq<char>)> {
    match find_from(s, p, 0) {
        Some(i) => Some((s.take(i), s.skip(i + p.len()))),
        None => None,
    }
}

pub fn split_once<'a>(text: &'a str, p: &str) -> (r: Option<(&'a str, &'a str)>)
    ensures
        match r {
            Some((left, right)) => split_at_first(text@, p@) == Some((left@, right@)),
            None => split_at_first(text@, p@) is None,
        },
{
    match find(text, p) {
        Some(i) => {
            let end: usize = text.unicode_len();
            let mid: usize = i + p.unicode_len();
            assert(text@.subrange(0, i as int) =~= text@.take(i as int));
            assert(text@.subrange(mid as int, end as int) =~= text@.skip(mid as int));
            Some((text.substring_char(0, i), text.substring_char(mid, end)))
        },
        None => None,
    }
}

// ---------------------------------------------------------------- replacing

/// `s` with every occurrence of `p`, taken from the left without overlap,
/// replaced by `with`. An empty `p` occurs nowhere.
pub open spec fn replaced(s: Seq<char>, p: Seq<char>, with: Seq<char>) -> Seq<char>
    decreases s.len(),
{
    if p.len() == 0 || s.len() == 0 {
        s
    } else if matches_at(s, p, 0) {
        with + replaced(s.skip(p.len() as int), p, with)
    } else {
        seq![s[0]] + replaced(s.skip(1), p, with)
    }
}

/// Replaces every occurrence of `p`, which is not empty.
pub fn replace(text: &str, p: &str, with: &str) -> (r: String)
    requires
        p@.len() > 0,
    ensures
        r@ == replaced(text@, p@, with@),
{
    let s = chars_of(text);
    let q = chars_of(p);
    let mut out = String::new();
    let mut i: usize = 0;
    assert(text@.skip(0) =~= text@);
    assert(out@ + replaced(text@, p@, with@) =~= replaced(text@, p@, with@));
    while i < s.len()
        invariant
            i <= s.len(),
            s@ == text@,
            q@ == p@,
            p@.len() > 0,
            out@ + replaced(text@.skip(i as int), p@, with@) == replaced(text@, p@, with@),
        decreases s.len() - i,
    {
        let ghost rest = text@.skip(i as int);
        if chars_match_at(&s, &q, i) {
            assert(rest.subrange(0, p@.len() as int) =~= text@.subrange(
                i as int,
                i as int + p@.len(),
            ));
            assert(rest.skip(p@.len() as int) =~= text@.skip(i + p@.len()));
            let ghost before = out@;
            out.append(with);
            assert(out@ + replaced(text@.skip(i + p@.len()), p@, with@) =~= before + (with@
                + replaced(text@.skip(i + p@.len()), p@, with@)));
            i += q.len();
        } else {
            assert(!matches_at(rest, p@, 0)) by {
                if matches_at(rest, p@, 0) {
                    assert(rest.subrange(0, p@.len() as int) =~= text@.subrange(
                        i as int,
                        i as int + p@.len(),
                    ));
                }
            }
            assert(rest.skip(1) =~= text@.skip(i + 1));
            let ghost before = out@;
            out.push(s[i]);
            assert(out@ + replaced(text@.skip(i + 1), p@, with@) =~= before + (seq![rest[0]]
                + replaced(text@.skip(i + 1), p@, with@)));
            i += 1;
        }
    }
    assert(text@.skip(i as int) =~= Seq::<char>::empty());
    assert(out@ + Seq::<char>::empty() =~= out@);
    out
}

/// A text without the pattern is left as it is.
pub proof fn replaced_absent(s: Seq<char>, p: Seq<char>, with: Seq<char>)
    requires
        forall|i: int| !matches_at(s, p, i),
    ensures
        replaced(s, p, with) == s,
    decreases s.len(),
{
    if p.len() == 0 || s.len() == 0 {
    } else {
        assert(!matches_at(s, p, 0));
        assert forall|i: int| !matches_at(s.skip(1), p, i) by {
            if matches_at(s.skip(1), p, i) {
                assert(s.skip(1).subrange(i, i + p.len()) =~= s.subrange(i + 1, i + 1 + p.len()));
                assert(matches_at(s, p, i + 1));
            }
        }
        replaced_absent(s.skip(1), p, with);
        assert(seq![s[0]] + s.skip(1) =~= s);
    }
}

// ---------------------------------------------------------------- splitting

/// The pieces of `s` between the characters of `set`; there is always one
/// piece more than there are separators.
pub open spec fn split_by(s: Seq<char>, set: CharSet) -> Seq<Seq<char>>
    decreases s.len(),
{
    if s.len() == 0 {
        seq![Seq::empty()]
    } else {
        let before = split_by(s.drop_last(), set);
        if set.has(s.last()) {
            before.push(Seq::empty())
        } else {
            before.drop_last().push(before.last().push(s.last()))
        }
    }
}

pub proof fn split_by_nonempty(s: Seq<char>, set: CharSet)
    ensures
        split_by(s, set).len() > 0,
    decreases s.len(),
{
    if s.len() > 0 {
        split_by_nonempty(s.drop_last(), set);
    }
}

pub fn split(text: &str, set: CharSet) -> (r: Vec<String>)
    ensures
        texts(r@) == split_by(text@, set),
{
    broadcast use group_texts;

    let chars = chars_of(text);
    let mut out: Vec<String> = Vec::new();
    let mut current = String::new();
    let mut i: usize = 0;
    assert(text@.take(0) =~= Seq::<char>::empty());
    assert(texts(out@).push(current@) =~= seq![Seq::<char>::empty()]);
    while i < chars.len()
        invariant
            i <= chars.len(),
            chars@ == text@,
            texts(out@).push(current@) == split_by(text@.take(i as int), set),
        decreases chars.len() - i,
    {
        let ghost next = text@.take(i + 1);
        let ghost before = texts(out@).push(current@);
        assert(next.drop_last() =~= text@.take(i as int));
        assert(next.last() == chars@[i as int]);
        assert(before.drop_last() =~= texts(out@));
        if set.contains(chars[i]) {
            out.push(current);
            current = String::new();
        } else {
            current.push(chars[i]);
        }
        i += 1;
    }
    assert(text@.take(i as int) =~= text@);
    out.push(current);
    out
}

/// The pieces that are not blank, each trimmed.
pub open spec fn trimmed_pieces(pieces: Seq<Seq<char>>) -> Seq<Seq<char>>
    decreases pieces.len(),
{
    if pieces.len() == 0 {
        Seq::empty()
    } else {
        let before = trimmed_pieces(pieces.drop_last());
        if blank(pieces.last()) {
            before
        } else {
            before.push(trimmed(pieces.last()))
        }
    }
}

/// The items of a list text: its pieces between separators, trimmed, without
/// the blank ones.
pub open spec fn list_items(s: Seq<char>, set: CharSet) -> Seq<Seq<char>> {
    trimmed_pieces(split_by(s, set))
}

pub fn trim_pieces(pieces: &Vec<String>) -> (r: Vec<String>)
    ensures
        texts(r@) == trimmed_pieces(texts(pieces@)),
{
    broadcast use group_texts;

    let mut out: Vec<String> = Vec::new();
    let mut i: usize = 0;
    assert(texts(pieces@).take(0) =~= Seq::<Seq<char>>::empty());
    while i < pieces.len()
        invariant
            i <= pieces.len(),
            texts(out@) == trimmed_pieces(texts(pieces@).take(i as int)),
        decreases pieces.len() - i,
    {
        let ghost next = texts(pieces@).take(i + 1);
        assert(next.drop_last() =~= texts(pieces@).take(i as int));
        let piece = trim(pieces[i].as_str());
        if !piece.is_empty() {
            out.push(piece.to_owned());
        }
        i += 1;
    }
    assert(texts(pieces@).take(i as int) =~= texts(pieces@));
    out
}

pub fn split_list(text: &str, set: CharSet) -> (r: Vec<String>)
    ensures
        texts(r@) == list_items(text@, set),
{
    let pieces = split(text, set);
    trim_pieces(&pieces)
}

/// The length of a text in UTF-8.
pub open spec fn byte_len(s: Seq<char>) -> nat {
    encode_utf8(s).len()
}

pub fn len_in_bytes(text: &str) -> (r: usize)
    ensures
        r == byte_len(text@),
{
    text.as_bytes().len()
}

} // verus!
