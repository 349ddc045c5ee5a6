use vstd::prelude::*;

verus! {

/// A place name together with the number of places that carry it.
#[derive(Debug, Clone)]
pub struct Location {
    pub name: String,
    pub count: u64,
}

/// Index of the first space at or after `from`, or the length of `s` if none.
pub open spec fn field_end(s: Seq<char>, from: int) -> int
    decreases s.len() - from,
{
    if from >= s.len() {
        s.len() as int
    } else if s[from] == ' ' {
        from
    } else {
        field_end(s, from + 1)
    }
}

pub open spec fn is_digit(c: char) -> bool {
    '0' <= c && c <= '9'
}

pub open spec fn all_digits(s: Seq<char>) -> bool {
    forall|i: int| 0 <= i < s.len() ==> is_digit(#[trigger] s[i])
}

/// The number written by a run of decimal digits.
pub open spec fn digits_value(s: Seq<char>) -> nat
    decreases s.len(),
{
    if s.len() == 0 {
        0
    } else {
        digits_value(s.drop_last()) * 10 + ((s.last() as u32) - ('0' as u32)) as nat
    }
}

/// The digits of an unsigned decimal numeral: an optional `+` sign stripped.
pub open spec fn unsigned_digits(s: Seq<char>) -> Seq<char> {
    if s.len() > 0 && s[0] == '+' {
        s.subrange(1, s.len() as int)
    } else {
        s
    }
}

/// The `u64` that a decimal numeral denotes: at least one digit, an optional
/// leading `+`, and a value that fits.
pub open spec fn count_of(s: Seq<char>) -> Option<u64> {
    let d = unsigned_digits(s);
    if d.len() > 0 && all_digits(d) && digits_value(d) <= u64::MAX {
        Some(digits_value(d) as u64)
    } else {
        None
    }
}

/// The first space-separated field of a line.
pub open spec fn first_field(s: Seq<char>) -> Seq<char> {
    s.subrange(0, field_end(s, 0))
}

/// Whether a line has a second field, that is, a space at all.
pub open spec fn has_second_field(s: Seq<char>) -> bool {
    field_end(s, 0) < s.len()
}

/// The second space-separated field of a line (between its first and second space).
pub open spec fn second_field(s: Seq<char>) -> Seq<char> {
    let e = field_end(s, 0);
    s.subrange(e + 1, field_end(s, e + 1))
}

pub open spec fn bad_count_message() -> Seq<char> {
    "the count is not an unsigned integer"@
}

pub open spec fn missing_name_message() -> Seq<char> {
    "the name is missing"@
}

/// What reading a trimmed line `<count> <name>` gives.
pub open spec fn parse_spec(s: Seq<char>) -> Result<(Seq<char>, u64), Seq<char>> {
    match count_of(first_field(s)) {
        None => Err(bad_count_message()),
        Some(c) => if has_second_field(s) {
            Ok((second_field(s), c))
        } else {
            Err(missing_name_message())
        },
    }
}

/// Whether a parse result agrees with `parse_spec`.
pub open spec fn parsed_as(r: Result<Location, String>, s: Seq<char>) -> bool {
    match (r, parse_spec(s)) {
        (Ok(l), Ok((name, count))) => l.name@ == name && l.count == count,
        (Err(e), Err(m)) => e@ == m,
        _ => false,
    }
}

proof fn lemma_field_end_bounds(s: Seq<char>, from: int)
    requires
        0 <= from <= s.len(),
    ensures
        from <= field_end(s, from) <= s.len(),
    decreases s.len() - from,
{
    if from < s.len() && s[from] != ' ' {
        lemma_field_end_bounds(s, from + 1);
    }
}

/// Scans `s` from `from` to the next space or to its end.
fn find_field_end(s: &str, len: usize, from: usize) -> (r: usize)
    requires
        len == s@.len(),
        from <= len,
    ensures
        r == field_end(s@, from as int),
        from <= r <= len,
{
    proof {
        lemma_field_end_bounds(s@, from as int);
    }
    let mut i: usize = from;
    while i < len
        invariant
            from <= i <= len,
            len == s@.len(),
            field_end(s@, i as int) == field_end(s@, from as int),
        decreases len - i,
    {
        if s.get_char(i) == ' ' {
            return i;
        }
        i = i + 1;
    }
    i
}

/// Reads a decimal `u64` numeral, as `str::parse::<u64>` accepts it.
pub fn parse_count(s: &str) -> (r: Option<u64>)
    ensures
        r == count_of(s@),
{
    let len = s.unicode_len();
    let mut i: usize = 0;
    if len > 0 && s.get_char(0) == '+' {
        i = 1;
    }
    let start = i;
    let ghost d = unsigned_digits(s@);
    assert(d =~= s@.subrange(start as int, len as int));
    if start == len {
        return None;
    }
    let mut value: u64 = 0;
    let mut overflow: bool = false;
    while i < len
        invariant
            start <= i <= len,
            len == s@.len(),
            d == s@.subrange(start as int, len as int),
            d == unsigned_digits(s@),
            all_digits(d.subrange(0, i - start)),
            !overflow ==> value as nat == digits_value(d.subrange(0, i - start)),
            overflow ==> digits_value(d.subrange(0, i - start)) > u64::MAX,
        decreases len - i,
    {
        let c = s.get_char(i);
        let ghost k = i - start;
        assert(d.subrange(0, k + 1).drop_last() =~= d.subrange(0, k));
        if !('0' <= c && c <= '9') {
            assert(!all_digits(d)) by {
                assert(d[k] == c);
            }
            return None;
        }
        let digit = (c as u32 - '0' as u32) as u64;
        if !overflow {
            if value > (u64::MAX - digit) / 10 {
                overflow = true;
            } else {
                value = value * 10 + digit;
            }
        }
        i = i + 1;
        assert(all_digits(d.subrange(0, i - start))) by {
            assert forall|j: int| 0 <= j < i - start implies is_digit(#[trigger] d.subrange(0, i - start)[j]) by {
                if j < k {
                    assert(d.subrange(0, k)[j] == d.subrange(0, i - start)[j]);
                }
            }
        }
    }
    assert(d.subrange(0, i - start) =~= d);
    if overflow {
        None
    } else {
        Some(value)
    }
}

impl Location {
    /// Reads a line `<count> <name>` once surrounding whitespace is gone: the
    /// count is the text before the first space, the name the text between
    /// the first space and the next one.
    pub fn parse_trimmed(s: &str) -> (r: Result<Location, String>)
        ensures
            parsed_as(r, s@),
    {
        let len = s.unicode_len();
        let e0 = find_field_end(s, len, 0);
        let count = match parse_count(s.substring_char(0, e0)) {
            Some(c) => c,
            None => {
                return Err(String::from_str("the count is not an unsigned integer"));
            },
        };
        if e0 == len {
            return Err(String::from_str("the name is missing"));
        }
        let e1 = find_field_end(s, len, e0 + 1);
        let name = String::from_str(s.substring_char(e0 + 1, e1));
        Ok(Location { name, count })
    }

    /// Reads a line `<count> <name>`, ignoring whitespace around it.
    pub fn try_from(s: &str) -> (r: Result<Location, String>)
        ensures
            parsed_as(r, trimmed(s@)),
    {
        Location::parse_trimmed(trim_line(s))
    }
}

/// A line without its leading and trailing whitespace.
pub uninterp spec fn trimmed(s: Seq<char>) -> Seq<char>;

/// Relies on `str::trim`: it drops leading and trailing whitespace, and what
/// remains depends on the characters of the line alone.
#[verifier::external_body]
fn trim_line(s: &str) -> (r: &str)
    ensures
        r@ == trimmed(s@),
{
    s.trim()
}

/// The lines of a text, as `str::lines` cuts it.
pub uninterp spec fn lines_of(s: Seq<char>) -> Seq<Seq<char>>;

/// Relies on `str::lines`: the text cut at line ends; which lines come out
/// depends on the characters of the text alone.
#[verifier::external_body]
fn split_lines(text: &str) -> (r: Vec<&str>)
    ensures
        r@.map_values(|l: &str| l@) == lines_of(text@),
{
    text.lines().collect()
}

/// Whether every line of `lines` reads as a location.
pub open spec fn all_parse(lines: Seq<Seq<char>>) -> bool {
    forall|i: int| 0 <= i < lines.len() ==> (#[trigger] parse_spec(trimmed(lines[i]))) is Ok
}

/// Whether line `i` is the first line that does not read as a location.
pub open spec fn first_bad_line(lines: Seq<Seq<char>>, i: int) -> bool {
    &&& 0 <= i < lines.len()
    &&& parse_spec(trimmed(lines[i])) is Err
    &&& forall|j: int| 0 <= j < i ==> (#[trigger] parse_spec(trimmed(lines[j]))) is Ok
}

/// Reads a dataset, one `<count> <name>` per line; the first line that does
/// not read fails the whole dataset with that line's error.
pub fn parse_lines(lines: &Vec<&str>) -> (r: Result<Vec<Location>, String>)
    ensures
        r is Ok <==> all_parse(lines@.map_values(|l: &str| l@)),
        r matches Ok(v) ==> v@.len() == lines@.len() && forall|i: int|
            0 <= i < v@.len() ==> parsed_as(Ok(#[trigger] v@[i]), trimmed(lines@[i]@)),
        r matches Err(e) ==> exists|i: int|
            first_bad_line(lines@.map_values(|l: &str| l@), i) && parsed_as(
                Err(e),
                trimmed(#[trigger] lines@[i]@),
            ),
{
    let ghost ls = lines@.map_values(|l: &str| l@);
    let mut out: Vec<Location> = Vec::new();
    let mut i: usize = 0;
    while i < lines.len()
        invariant
            i <= lines@.len(),
            ls == lines@.map_values(|l: &str| l@),
            out@.len() == i,
            forall|j: int| 0 <= j < i ==> parsed_as(Ok(#[trigger] out@[j]), trimmed(lines@[j]@)),
            forall|j: int| 0 <= j < i ==> (#[trigger] parse_spec(trimmed(ls[j]))) is Ok,
        decreases lines@.len() - i,
    {
        let r = Location::try_from(lines[i]);
        assert(ls[i as int] == lines@[i as int]@);
        match r {
            Ok(l) => {
                out.push(l);
            },
            Err(e) => {
                assert(first_bad_line(ls, i as int));
                return Err(e);
            },
        }
        i = i + 1;
    }
    Ok(out)
}

/// Reads a whole dataset text; see `parse_lines`.
pub fn parse_dataset(text: &str) -> (r: Result<Vec<Location>, String>)
    ensures
        r is Ok <==> all_parse(lines_of(text@)),
        r matches Ok(v) ==> v@.len() == lines_of(text@).len() && forall|i: int|
            0 <= i < v@.len() ==> parsed_as(Ok(#[trigger] v@[i]), trimmed(lines_of(text@)[i])),
        r matches Err(e) ==> exists|i: int|
            first_bad_line(lines_of(text@), i) && parsed_as(Err(e), trimmed(#[trigger] lines_of(text@)[i])),
{
    let lines = split_lines(text);
    let r = parse_lines(&lines);
    proof {
        let ls = lines@.map_values(|l: &str| l@);
        assert(ls == lines_of(text@));
        assert forall|i: int| 0 <= i < ls.len() implies #[trigger] ls[i] == lines@[i]@ by {}
    }
    r
}

} // verus!
