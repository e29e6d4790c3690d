use vstd::prelude::*;

verus! {

/// Whether a character is white space: the characters that carry the
/// Unicode property `White_Space`.
pub open spec fn is_space_spec(c: char) -> bool {
    let n = c as u32;
    ||| 0x09 <= n <= 0x0D
    ||| n == 0x20
    ||| n == 0x85
    ||| n == 0xA0
    ||| n == 0x1680
    ||| 0x2000 <= n <= 0x200A
    ||| n == 0x2028
    ||| n == 0x2029
    ||| n == 0x202F
    ||| n == 0x205F
    ||| n == 0x3000
}

/// How many characters of white space a text begins with.
pub open spec fn leading_spaces(s: Seq<char>) -> nat
    decreases s.len(),
{
    if s.len() > 0 && is_space_spec(s[0]) {
        1 + leading_spaces(s.drop_first())
    } else {
        0
    }
}

/// How many characters of white space a text ends with.
pub open spec fn trailing_spaces(s: Seq<char>) -> nat
    decreases s.len(),
{
    if s.len() > 0 && is_space_spec(s.last()) {
        1 + trailing_spaces(s.drop_last())
    } else {
        0
    }
}

/// A text without the white space at its two ends.
pub open spec fn trim_spec(s: Seq<char>) -> Seq<char> {
    let rest = s.skip(leading_spaces(s) as int);
    rest.take(rest.len() - trailing_spaces(rest))
}

/// Whether `i` is the place of the first colon of a text.
pub open spec fn is_first_colon(s: Seq<char>, i: int) -> bool {
    &&& 0 <= i < s.len()
    &&& s[i] == ':'
    &&& forall|k: int| 0 <= k < i ==> s[k] != ':'
}

/// A text split at its first colon into what stands before it and what
/// stands after it; nothing when the text holds no colon.
pub open spec fn split_once_spec(s: Seq<char>) -> Option<(Seq<char>, Seq<char>)> {
    if exists|i: int| is_first_colon(s, i) {
        let i = choose|i: int| is_first_colon(s, i);
        Some((s.take(i), s.skip(i + 1)))
    } else {
        None
    }
}

/// Some header of the list has the name `name`.
pub open spec fn has_name(h: Seq<(Seq<char>, Seq<char>)>, name: Seq<char>) -> bool {
    exists|i: int| 0 <= i < h.len() && (#[trigger] h[i]).0 == name
}

/// No two headers of the list have the same name.
pub open spec fn distinct_names(h: Seq<(Seq<char>, Seq<char>)>) -> bool {
    forall|i: int, j: int| 0 <= i < j < h.len() ==> h[i].0 != h[j].0
}

/// The place of the header named `name` in a list that holds one.
pub open spec fn name_index(h: Seq<(Seq<char>, Seq<char>)>, name: Seq<char>) -> int
    recommends
        has_name(h, name),
{
    choose|i: int| 0 <= i < h.len() && (#[trigger] h[i]).0 == name
}

/// The list after a header has been set: its value takes the place of the
/// value that the name had, or the header goes to the end when the name is
/// new.
pub open spec fn put(h: Seq<(Seq<char>, Seq<char>)>, name: Seq<char>, value: Seq<char>) -> Seq<
    (Seq<char>, Seq<char>),
> {
    if has_name(h, name) {
        h.update(name_index(h, name), (name, value))
    } else {
        h.push((name, value))
    }
}

/// The headers that a list of arguments stands for. An argument of the
/// form `name: value` sets the header `name`, both parts without the white
/// space around them; a later argument overrides an earlier one with the
/// same name; an argument without a colon is passed over.
pub open spec fn parse_headers_spec(args: Seq<Seq<char>>) -> Seq<(Seq<char>, Seq<char>)>
    decreases args.len(),
{
    if args.len() == 0 {
        Seq::empty()
    } else {
        let earlier = parse_headers_spec(args.drop_last());
        match split_once_spec(args.last()) {
            Some((name, value)) => put(earlier, trim_spec(name), trim_spec(value)),
            None => earlier,
        }
    }
}

/// The values of a list of headers.
pub open spec fn headers_view(h: Seq<(String, String)>) -> Seq<(Seq<char>, Seq<char>)> {
    Seq::new(h.len(), |i: int| (h[i].0@, h[i].1@))
}

/// The values of a list of arguments.
pub open spec fn args_view(args: Seq<String>) -> Seq<Seq<char>> {
    Seq::new(args.len(), |i: int| args[i]@)
}

/// Tests whether a character is white space.
pub fn is_space(c: char) -> (b: bool)
    ensures
        b == is_space_spec(c),
{
    let n: u32 = c as u32;
    (0x09 <= n && n <= 0x0D) || n == 0x20 || n == 0x85 || n == 0xA0 || n == 0x1680 || (0x2000 <= n
        && n <= 0x200A) || n == 0x2028 || n == 0x2029 || n == 0x202F || n == 0x205F || n == 0x3000
}

/// The characters of a text.
pub fn chars_of(s: &str) -> (v: Vec<char>)
    ensures
        v@ == s@,
{
    let mut v: Vec<char> = Vec::new();
    for c in it: s.chars()
        invariant
            v@ == it.seq().take(it.index() as int),
            it.seq() == s@,
    {
        v.push(c);
    }
    v
}

/// A text that begins with `a` characters of white space followed by
/// another character, or that consists of `a` such characters, has `a`
/// leading spaces.
proof fn lemma_leading_spaces(s: Seq<char>, a: int)
    requires
        0 <= a <= s.len(),
        forall|k: int| 0 <= k < a ==> is_space_spec(s[k]),
        a < s.len() ==> !is_space_spec(s[a]),
    ensures
        leading_spaces(s) == a,
    decreases a,
{
    if a > 0 {
        lemma_leading_spaces(s.drop_first(), a - 1);
    }
}

/// The same for the white space at the end of a text.
proof fn lemma_trailing_spaces(s: Seq<char>, a: int)
    requires
        0 <= a <= s.len(),
        forall|k: int| s.len() - a <= k < s.len() ==> is_space_spec(s[k]),
        a < s.len() ==> !is_space_spec(s[s.len() - a - 1]),
    ensures
        trailing_spaces(s) == a,
    decreases a,
{
    if a > 0 {
        lemma_trailing_spaces(s.drop_last(), a - 1);
    }
}

/// Finds where the part `lo..hi` of a text begins and ends once the white
/// space at its two ends is left off.
fn trim_bounds(text: &Vec<char>, lo: usize, hi: usize) -> (bounds: (usize, usize))
    requires
        lo <= hi <= text@.len(),
    ensures
        lo <= bounds.0 <= bounds.1 <= hi,
        text@.subrange(bounds.0 as int, bounds.1 as int) == trim_spec(
            text@.subrange(lo as int, hi as int),
        ),
{
    let ghost part = text@.subrange(lo as int, hi as int);
    let mut a: usize = lo;
    while a < hi && is_space(text[a])
        invariant
            lo <= a <= hi <= text@.len(),
            forall|k: int| lo <= k < a ==> is_space_spec(text@[k]),
        decreases hi - a,
    {
        a += 1;
    }
    let mut b: usize = hi;
    while b > a && is_space(text[b - 1])
        invariant
            a <= b <= hi <= text@.len(),
            forall|k: int| b <= k < hi ==> is_space_spec(text@[k]),
        decreases b - a,
    {
        b -= 1;
    }
    proof {
        lemma_leading_spaces(part, a - lo);
        let rest = part.skip(a - lo);
        assert(rest =~= text@.subrange(a as int, hi as int));
        lemma_trailing_spaces(rest, hi - b);
        assert(rest.take(rest.len() - (hi - b)) =~= text@.subrange(a as int, b as int));
    }
    (a, b)
}

/// Finds the first colon of a text.
fn find_colon(text: &Vec<char>) -> (place: Option<usize>)
    ensures
        match place {
            Some(i) => is_first_colon(text@, i as int),
            None => forall|k: int| 0 <= k < text@.len() ==> text@[k] != ':',
        },
{
    let mut i: usize = 0;
    while i < text.len()
        invariant
            i <= text@.len(),
            forall|k: int| 0 <= k < i ==> text@[k] != ':',
        decreases text@.len() - i,
    {
        if text[i] == ':' {
            return Some(i);
        }
        i += 1;
    }
    None
}

/// Splits one argument into the name and the value of a header.
pub fn parse_header(arg: &str) -> (header: Option<(String, String)>)
    ensures
        match header {
            Some((name, value)) => split_once_spec(arg@) matches Some((n, v)) && name@
                == trim_spec(n) && value@ == trim_spec(v),
            None => split_once_spec(arg@) is None,
        },
{
    let text = chars_of(arg);
    match find_colon(&text) {
        Some(i) => {
            proof {
                let j = choose|j: int| is_first_colon(text@, j);
                assert(is_first_colon(text@, i as int));
                if j < i {
                    assert(text@[j] != ':');
                } else if i < j {
                    assert(text@[i as int] != ':');
                }
                assert(text@.take(i as int) =~= text@.subrange(0, i as int));
                assert(text@.skip(i + 1) =~= text@.subrange(i + 1, text@.len() as int));
            }
            let (a, b) = trim_bounds(&text, 0, i);
            let (c, d) = trim_bounds(&text, i + 1, text.len());
            let name = arg.substring_char(a, b).to_owned();
            let value = arg.substring_char(c, d).to_owned();
            Some((name, value))
        },
        None => {
            assert forall|j: int| !is_first_colon(text@, j) by {
                if 0 <= j < text@.len() {
                    assert(text@[j] != ':');
                }
            }
            None
        },
    }
}

/// Sets a header in a list of headers.
pub fn put_header(headers: &mut Vec<(String, String)>, name: String, value: String)
    requires
        distinct_names(headers_view(old(headers)@)),
    ensures
        distinct_names(headers_view(final(headers)@)),
        headers_view(final(headers)@) == put(headers_view(old(headers)@), name@, value@),
{
    let ghost before = headers_view(headers@);
    let mut i: usize = 0;
    while i < headers.len()
        invariant
            i <= headers@.len(),
            before == headers_view(headers@),
            before == headers_view(old(headers)@),
            distinct_names(before),
            forall|k: int| 0 <= k < i ==> (#[trigger] before[k]).0 != name@,
        decreases headers@.len() - i,
    {
        if headers[i].0 == name {
            proof {
                assert(before.len() == headers@.len());
                assert(before[i as int].0 == name@);
                assert(has_name(before, name@));
                let j = name_index(before, name@);
                if j < i {
                    assert(before[j].0 != before[i as int].0);
                } else if i < j {
                    assert(before[i as int].0 != before[j].0);
                }
            }
            headers.set(i, (name, value));
            assert(headers_view(headers@) =~= before.update(i as int, (name@, value@)));
            return ;
        }
        i += 1;
    }
    headers.push((name, value));
    assert(headers_view(headers@) =~= before.push((name@, value@)));
}

/// Reads a list of arguments of the form `name: value` into a list of
/// headers in which no name occurs twice.
pub fn parse_headers(header_args: &[String]) -> (headers: Vec<(String, String)>)
    ensures
        headers_view(headers@) == parse_headers_spec(args_view(header_args@)),
        distinct_names(headers_view(headers@)),
{
    let ghost args = args_view(header_args@);
    let mut headers: Vec<(String, String)> = Vec::new();
    let mut i: usize = 0;
    assert(headers_view(headers@) =~= parse_headers_spec(args.take(0)));
    while i < header_args.len()
        invariant
            i <= header_args@.len(),
            args == args_view(header_args@),
            headers_view(headers@) == parse_headers_spec(args.take(i as int)),
            distinct_names(headers_view(headers@)),
        decreases header_args@.len() - i,
    {
        proof {
            assert(args.take(i + 1).drop_last() =~= args.take(i as int));
            assert(args.take(i + 1).last() == header_args@[i as int]@);
        }
        match parse_header(header_args[i].as_str()) {
            Some((name, value)) => {
                put_header(&mut headers, name, value);
            },
            None => {},
        }
        i += 1;
    }
    assert(args.take(i as int) =~= args);
    headers
}

} // verus!
