//! The request grammar: which operation a method and a URL ask for.

use vstd::prelude::*;

verus! {

/// What a request asks for.
#[derive(Clone, Copy, Debug, PartialEq, Eq, Structural)]
pub enum Route {
    /// `GET /task`
    List,
    /// `POST /task`
    Create,
    /// `GET /task/{id}`
    Fetch(usize),
    /// `UPDATE /task/{id}`
    Update(usize),
    /// `DELETE /task/{id}`
    Delete(usize),
    /// Anything else.
    Unknown,
}

/// Whether `c` is one of `0` to `9`.
pub open spec fn is_digit(c: char) -> bool {
    '0' <= c && c <= '9'
}

/// The number that a digit stands for; 0 for any other character.
pub open spec fn digit_value(c: char) -> nat {
    if is_digit(c) {
        (c as u32 - 48) as nat
    } else {
        0
    }
}

/// Whether every character of `s` is a digit.
pub open spec fn all_digits(s: Seq<char>) -> bool {
    forall|i: int| 0 <= i < s.len() ==> is_digit(#[trigger] s[i])
}

/// The number that a sequence of digits writes in base ten.
pub open spec fn decimal_value(s: Seq<char>) -> nat
    decreases s.len(),
{
    if s.len() == 0 {
        0
    } else {
        decimal_value(s.drop_last()) * 10 + digit_value(s.last())
    }
}

/// The identifier that one or more digits write, where their value is an
/// identifier of this machine.
pub open spec fn digits_id(digits: Seq<char>) -> Option<usize> {
    if digits.len() > 0 && all_digits(digits) && decimal_value(digits) <= usize::MAX {
        Some(decimal_value(digits) as usize)
    } else {
        None
    }
}

/// The identifier that a path segment writes: an optional `+`, then digits.
pub open spec fn parse_id(s: Seq<char>) -> Option<usize> {
    if s.len() > 0 && s[0] == '+' {
        digits_id(s.drop_first())
    } else {
        digits_id(s)
    }
}

/// The route of a request on one task, by its method.
pub open spec fn item_route(method: Seq<char>, id: usize) -> Route {
    if method == "GET"@ {
        Route::Fetch(id)
    } else if method == "UPDATE"@ {
        Route::Update(id)
    } else if method == "DELETE"@ {
        Route::Delete(id)
    } else {
        Route::Unknown
    }
}

/// Where `c` first stands in `s`: its index, or the length of `s` where it
/// stands nowhere.
pub open spec fn first_index(s: Seq<char>, c: char) -> nat
    decreases s.len(),
{
    if s.len() == 0 || s[0] == c {
        0
    } else {
        1 + first_index(s.drop_first(), c)
    }
}

/// The path of a URL: what stands before its query, which starts at the
/// first `?`.
pub open spec fn path_part(url: Seq<char>) -> Seq<char> {
    url.take(first_index(url, '?') as int)
}

/// The two segments of a path of the form `/a/b`, where neither `a` nor `b`
/// holds a `/`; `None` for a path of any other form.
pub open spec fn item_segments(path: Seq<char>) -> Option<(Seq<char>, Seq<char>)> {
    if path.len() > 0 && path[0] == '/' {
        let rest = path.drop_first();
        let k = first_index(rest, '/') as int;
        if k < rest.len() && !rest.skip(k + 1).contains('/') {
            Some((rest.take(k), rest.skip(k + 1)))
        } else {
            None
        }
    } else {
        None
    }
}

/// What percent-decoding makes of a segment: each `%` with two hexadecimal
/// digits behind it becomes the byte they write, and the bytes are read as
/// UTF-8, with U+FFFD in place of what is not UTF-8.
pub uninterp spec fn percent_decoded(segment: Seq<char>) -> Seq<char>;

/// A segment as the router reads it: decoded where it holds a `%`, as it
/// stands where it holds none.
pub open spec fn segment_text(segment: Seq<char>) -> Seq<char> {
    if segment.contains('%') {
        percent_decoded(segment)
    } else {
        segment
    }
}

/// The route of a request on `/a/b`, by its method and the two segments as
/// they are read.
pub open spec fn segments_route(method: Seq<char>, collection: Seq<char>, item: Seq<char>)
    -> Route {
    if collection == "task"@ {
        match parse_id(item) {
            Some(id) => item_route(method, id),
            None => Route::Unknown,
        }
    } else {
        Route::Unknown
    }
}

/// The route of a request by its method and its path: `/task` is the
/// collection, `/task/` followed by an identifier is one task, and every
/// other path or method is unknown.
pub open spec fn route_of(method: Seq<char>, path: Seq<char>) -> Route {
    if path == "/task"@ {
        if method == "GET"@ {
            Route::List
        } else if method == "POST"@ {
            Route::Create
        } else {
            Route::Unknown
        }
    } else {
        match item_segments(path) {
            Some((collection, item)) => segments_route(
                method,
                segment_text(collection),
                segment_text(item),
            ),
            None => Route::Unknown,
        }
    }
}

/// The route of a request by its method and its URL.
pub open spec fn request_route(method: Seq<char>, url: Seq<char>) -> Route {
    route_of(method, path_part(url))
}

/// A longer run of digits never writes a smaller number than its beginning.
proof fn lemma_decimal_value_grows(s: Seq<char>, k: int)
    requires
        0 <= k <= s.len(),
    ensures
        decimal_value(s.take(k)) <= decimal_value(s),
    decreases s.len() - k,
{
    if k < s.len() {
        let longer = s.take(k + 1);
        assert(longer.drop_last() =~= s.take(k));
        lemma_decimal_value_grows(s, k + 1);
    } else {
        assert(s.take(k) =~= s);
    }
}

/// `c` first stands at `k` where it stands nowhere before `k`, and stands at
/// `k` or `s` ends there.
pub proof fn lemma_first_index(s: Seq<char>, c: char, k: int)
    requires
        0 <= k <= s.len(),
        forall|j: int| 0 <= j < k ==> s[j] != c,
        k == s.len() || s[k] == c,
    ensures
        first_index(s, c) == k,
    decreases s.len(),
{
    if k > 0 {
        let rest = s.drop_first();
        assert forall|j: int| 0 <= j < k - 1 implies rest[j] != c by {
            assert(rest[j] == s[j + 1]);
        }
        lemma_first_index(rest, c, k - 1);
    }
}

/// The characters of a string, by index.
fn chars_of(s: &str) -> (chars: Vec<char>)
    ensures
        chars@ == s@,
{
    let mut chars: Vec<char> = Vec::new();
    for c in it: s.chars()
        invariant
            it.seq() == s@,
            chars@ == s@.take(it.index()),
    {
        chars.push(c);
        assert(s@.take(it.index() + 1) =~= s@.take(it.index()).push(c));
    }
    assert(s@.take(s@.len() as int) =~= s@);
    chars
}

/// Whether `chars` begins with `word`.
fn begins_with(chars: &Vec<char>, word: &Vec<char>) -> (yes: bool)
    ensures
        yes == (chars.len() >= word.len() && chars@.subrange(0, word.len() as int) == word@),
{
    if chars.len() < word.len() {
        return false;
    }
    let mut i: usize = 0;
    while i < word.len()
        invariant
            i <= word.len() <= chars.len(),
            chars@.subrange(0, i as int) == word@.take(i as int),
        decreases word.len() - i,
    {
        if chars[i] != word[i] {
            assert(chars@.subrange(0, word.len() as int)[i as int] != word@[i as int]);
            return false;
        }
        assert(chars@.subrange(0, i + 1) =~= chars@.subrange(0, i as int).push(chars@[i as int]));
        assert(word@.take(i + 1) =~= word@.take(i as int).push(word@[i as int]));
        i += 1;
    }
    assert(word@.take(word.len() as int) =~= word@);
    true
}

/// Whether `chars` spells `word`.
fn spells(chars: &Vec<char>, word: &str) -> (yes: bool)
    ensures
        yes == (chars@ == word@),
{
    let word = chars_of(word);
    let yes = chars.len() == word.len() && begins_with(chars, &word);
    assert(chars@.subrange(0, chars.len() as int) =~= chars@);
    yes
}

/// Where `c` first stands in `chars` at or after `from`, or the length of
/// `chars`.
fn index_of(chars: &Vec<char>, from: usize, c: char) -> (k: usize)
    requires
        from <= chars.len(),
    ensures
        from <= k <= chars.len(),
        k - from == first_index(chars@.skip(from as int), c),
        (k == chars.len()) == !chars@.skip(from as int).contains(c),
{
    let mut k: usize = from;
    while k < chars.len() && chars[k] != c
        invariant
            from <= k <= chars.len(),
            forall|j: int| from <= j < k ==> chars@[j] != c,
        decreases chars.len() - k,
    {
        k += 1;
    }
    proof {
        let tail = chars@.skip(from as int);
        lemma_first_index(tail, c, k - from);
        if k < chars.len() {
            assert(tail[k - from] == c);
        }
    }
    k
}

/// The characters of `chars` from `from` up to `to`.
fn slice_of(chars: &Vec<char>, from: usize, to: usize) -> (part: Vec<char>)
    requires
        from <= to <= chars.len(),
    ensures
        part@ == chars@.subrange(from as int, to as int),
{
    let mut part: Vec<char> = Vec::new();
    let mut i: usize = from;
    while i < to
        invariant
            from <= i <= to <= chars.len(),
            part@ == chars@.subrange(from as int, i as int),
        decreases to - i,
    {
        part.push(chars[i]);
        assert(chars@.subrange(from as int, i + 1) =~= chars@.subrange(from as int, i as int).push(
            chars@[i as int],
        ));
        i += 1;
    }
    part
}

/// Trusted: `percent_encoding::percent_decode` on the segment's UTF-8 bytes,
/// read back as text by `PercentDecode::decode_utf8_lossy`. Neither panics,
/// and the result depends on the segment alone; the contract gives that
/// result its name, [`percent_decoded`], and claims nothing else of it.
#[verifier::external_body]
fn percent_decode(segment: &Vec<char>) -> (decoded: Vec<char>)
    ensures
        decoded@ == percent_decoded(segment@),
{
    let raw: String = segment.iter().collect();
    let text = rouille::percent_encoding::percent_decode(raw.as_bytes()).decode_utf8_lossy();
    text.chars().collect()
}

/// Reads a segment: decodes it where it holds a `%`.
fn read_segment(segment: Vec<char>) -> (text: Vec<char>)
    ensures
        text@ == segment_text(segment@),
{
    let percent = index_of(&segment, 0, '%');
    assert(segment@.skip(0) =~= segment@);
    if percent < segment.len() {
        percent_decode(&segment)
    } else {
        segment
    }
}

/// The route of a request on one task, by its method.
fn item_route_of(verb: &Vec<char>, id: usize) -> (route: Route)
    ensures
        route == item_route(verb@, id),
{
    if spells(verb, "GET") {
        Route::Fetch(id)
    } else if spells(verb, "UPDATE") {
        Route::Update(id)
    } else if spells(verb, "DELETE") {
        Route::Delete(id)
    } else {
        Route::Unknown
    }
}

/// Reads the identifier that `chars` writes.
fn read_id(chars: &Vec<char>) -> (id: Option<usize>)
    ensures
        id == parse_id(chars@),
{
    let n = chars.len();
    let mut i: usize = 0;
    if i < n && chars[i] == '+' {
        i += 1;
    }
    let first = i;
    let ghost digits = chars@.subrange(first as int, n as int);
    assert(digits =~= if chars@.len() > 0 && chars@[0] == '+' {
        chars@.drop_first()
    } else {
        chars@
    });
    assert(parse_id(chars@) == digits_id(digits));
    if i == n {
        return None;
    }
    let mut value: usize = 0;
    assert(digits.take(0) =~= Seq::<char>::empty());
    while i < n
        invariant
            first <= i <= n,
            n == chars.len(),
            digits == chars@.subrange(first as int, n as int),
            parse_id(chars@) == digits_id(digits),
            all_digits(digits.take(i - first)),
            value == decimal_value(digits.take(i - first)),
        decreases n - i,
    {
        let c = chars[i];
        let ghost seen = digits.take(i - first + 1);
        assert(seen.drop_last() =~= digits.take(i - first));
        assert(seen.last() == c);
        if !('0' <= c && c <= '9') {
            assert(!is_digit(digits[i - first]));
            return None;
        }
        let digit: usize = (c as u32 - 48) as usize;
        proof {
            lemma_decimal_value_grows(digits, i - first + 1);
        }
        let tens = match value.checked_mul(10) {
            Some(tens) => tens,
            None => {
                return None;
            },
        };
        let next = match tens.checked_add(digit) {
            Some(next) => next,
            None => {
                return None;
            },
        };
        value = next;
        i += 1;
    }
    assert(digits.take(n - first) =~= digits);
    Some(value)
}

/// The route of a request on `/a/b`, by its method and the two segments as
/// they are read.
fn segments_route_of(verb: &Vec<char>, collection: &Vec<char>, item: &Vec<char>) -> (route: Route)
    ensures
        route == segments_route(verb@, collection@, item@),
{
    if spells(collection, "task") {
        match read_id(item) {
            Some(id) => item_route_of(verb, id),
            None => Route::Unknown,
        }
    } else {
        Route::Unknown
    }
}

impl Route {
    /// Finds the route of a request on a path of the form `/a/b` from its
    /// method and the two segments as they are read.
    pub fn of_segments(method: &str, collection: &str, item: &str) -> (route: Route)
        ensures
            route == segments_route(method@, collection@, item@),
    {
        segments_route_of(&chars_of(method), &chars_of(collection), &chars_of(item))
    }

    /// Finds the route of a request from its method and its URL. A query,
    /// from the first `?` on, is ignored.
    pub fn resolve(method: &str, url: &str) -> (route: Route)
        ensures
            route == request_route(method@, url@),
    {
        let verb = chars_of(method);
        let mut chars = chars_of(url);
        let end = index_of(&chars, 0, '?');
        assert(chars@.skip(0) =~= chars@);
        chars.truncate(end);
        let n = chars.len();
        if spells(&chars, "/task") {
            if spells(&verb, "GET") {
                Route::List
            } else if spells(&verb, "POST") {
                Route::Create
            } else {
                Route::Unknown
            }
        } else if n > 0 && chars[0] == '/' {
            let ghost rest = chars@.drop_first();
            let slash = index_of(&chars, 1, '/');
            assert(chars@.skip(1) =~= rest);
            if slash < n {
                let more = index_of(&chars, slash + 1, '/');
                assert(rest.skip(slash - 1 + 1) =~= chars@.skip(slash + 1));
                if more == n {
                    let collection = read_segment(slice_of(&chars, 1, slash));
                    let item = read_segment(slice_of(&chars, slash + 1, n));
                    assert(rest.take(slash - 1) =~= chars@.subrange(1, slash as int));
                    assert(rest.skip(slash - 1 + 1) =~= chars@.subrange(slash + 1, n as int));
                    segments_route_of(&verb, &collection, &item)
                } else {
                    Route::Unknown
                }
            } else {
                Route::Unknown
            }
        } else {
            Route::Unknown
        }
    }

    /// Whether the route reads a request body.
    pub fn takes_body(&self) -> (yes: bool)
        ensures
            yes == (self is Create || self is Update),
    {
        match self {
            Route::Create => true,
            Route::Update(_) => true,
            _ => false,
        }
    }
}

} // verus!
