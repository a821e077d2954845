use vstd::prelude::*;

verus! {

/// Why a world descriptor was rejected.
#[derive(Debug, Clone, PartialEq, Eq)]
pub enum MetaError {
    /// The line with this number (counted from 1) is neither blank, a
    /// comment, nor a `key = value` pair.
    InvalidMetaLine(usize),
    /// A required key is absent; holds the key.
    MissingMetaField(String),
}

/// The world descriptor: which backend stores the world and which game it belongs to.
#[derive(Debug, Clone)]
pub struct WorldMeta {
    pub backend: String,
    pub game: String,
}

/// Relies on `str::chars`, collected: the characters of `s` in order.
#[verifier::external_body]
pub(crate) fn chars_of(s: &str) -> (r: Vec<char>)
    ensures
        r@ == s@,
{
    s.chars().collect()
}

/// Relies on `String`'s `FromIterator<char>`: the string of these characters.
#[verifier::external_body]
pub(crate) fn string_of(cs: &[char]) -> (r: String)
    ensures
        r@ == cs@,
{
    cs.iter().collect()
}

/// Whether code point `u` has the Unicode `White_Space` property.
pub open spec fn is_white_space(u: u32) -> bool {
    (0x9 <= u && u <= 0xd) || u == 0x20 || u == 0x85 || u == 0xa0 || u == 0x1680
        || (0x2000 <= u && u <= 0x200a) || u == 0x2028 || u == 0x2029 || u == 0x202f
        || u == 0x205f || u == 0x3000
}

/// Blank characters around keys, values and lines: every Unicode white space.
pub open spec fn is_blank(c: char) -> bool {
    is_white_space(c as u32)
}

/// Whether `c` is blank.
fn blank(c: char) -> (r: bool)
    ensures
        r == is_blank(c),
{
    let u = c as u32;
    (0x9 <= u && u <= 0xd) || u == 0x20 || u == 0x85 || u == 0xa0 || u == 0x1680
        || (0x2000 <= u && u <= 0x200a) || u == 0x2028 || u == 0x2029 || u == 0x202f
        || u == 0x205f || u == 0x3000
}

pub open spec fn backend_key() -> Seq<char> {
    seq!['b', 'a', 'c', 'k', 'e', 'n', 'd']
}

pub open spec fn game_key() -> Seq<char> {
    seq!['g', 'a', 'm', 'e', 'i', 'd']
}

/// Index of the first `'\n'` at or after `i`, or the length of `s`.
pub open spec fn line_end(s: Seq<char>, i: int) -> int
    decreases s.len() - i,
{
    if i < 0 || i >= s.len() {
        s.len() as int
    } else if s[i] == '\n' {
        i
    } else {
        line_end(s, i + 1)
    }
}

/// First index in `i..j` that is not blank, or `j`.
pub open spec fn skip_blank(s: Seq<char>, i: int, j: int) -> int
    decreases j - i,
{
    if i >= j {
        j
    } else if is_blank(s[i]) {
        skip_blank(s, i + 1, j)
    } else {
        i
    }
}

/// End of `s[i..j]` with trailing blanks removed.
pub open spec fn trim_end(s: Seq<char>, i: int, j: int) -> int
    decreases j - i,
{
    if j <= i {
        i
    } else if is_blank(s[j - 1]) {
        trim_end(s, i, j - 1)
    } else {
        j
    }
}

/// First index of `'='` in `i..j`, or `j`.
pub open spec fn find_eq(s: Seq<char>, i: int, j: int) -> int
    decreases j - i,
{
    if i >= j {
        j
    } else if s[i] == '=' {
        i
    } else {
        find_eq(s, i + 1, j)
    }
}

/// Reads the descriptor lines from offset `i` on, where `line` is the number
/// of the line at `i` and `backend` / `game` hold what earlier lines set.
/// Blank lines and lines starting with `#` are skipped; other lines are
/// `key = value` with blanks trimmed; a later value replaces an earlier one,
/// and unknown keys are ignored.
pub open spec fn scan_meta(
    s: Seq<char>,
    i: int,
    backend: Option<Seq<char>>,
    game: Option<Seq<char>>,
    line: nat,
) -> Result<(Option<Seq<char>>, Option<Seq<char>>), nat>
    decreases s.len() + 1 - i,
{
    let e = line_end(s, i);
    if i < 0 || i >= s.len() || e < i || e > s.len() {
        Ok((backend, game))
    } else {
        let a = skip_blank(s, i, e);
        let b = trim_end(s, a, e);
        if a == b || s[a] == '#' {
            scan_meta(s, e + 1, backend, game, line + 1)
        } else {
            let q = find_eq(s, a, b);
            if q == b {
                Err(line)
            } else {
                let key = s.subrange(a, trim_end(s, a, q));
                let value = s.subrange(skip_blank(s, q + 1, b), b);
                if key == backend_key() {
                    scan_meta(s, e + 1, Some(value), game, line + 1)
                } else if key == game_key() {
                    scan_meta(s, e + 1, backend, Some(value), line + 1)
                } else {
                    scan_meta(s, e + 1, backend, game, line + 1)
                }
            }
        }
    }
}

proof fn lemma_line_end_bounds(s: Seq<char>, i: int)
    requires
        0 <= i <= s.len(),
    ensures
        i <= line_end(s, i) <= s.len(),
        line_end(s, i) < s.len() ==> s[line_end(s, i)] == '\n',
    decreases s.len() - i,
{
    if i < s.len() && s[i] != '\n' {
        lemma_line_end_bounds(s, i + 1);
    }
}

proof fn lemma_skip_blank_bounds(s: Seq<char>, i: int, j: int)
    requires
        i <= j,
    ensures
        i <= skip_blank(s, i, j) <= j,
    decreases j - i,
{
    if i < j && is_blank(s[i]) {
        lemma_skip_blank_bounds(s, i + 1, j);
    }
}

proof fn lemma_trim_end_bounds(s: Seq<char>, i: int, j: int)
    requires
        i <= j,
    ensures
        i <= trim_end(s, i, j) <= j,
    decreases j - i,
{
    if i < j && is_blank(s[j - 1]) {
        lemma_trim_end_bounds(s, i, j - 1);
    }
}

proof fn lemma_find_eq_bounds(s: Seq<char>, i: int, j: int)
    requires
        i <= j,
    ensures
        i <= find_eq(s, i, j) <= j,
    decreases j - i,
{
    if i < j && s[i] != '=' {
        lemma_find_eq_bounds(s, i + 1, j);
    }
}

fn line_end_at(cs: &Vec<char>, i: usize) -> (r: usize)
    requires
        i <= cs@.len(),
    ensures
        r == line_end(cs@, i as int),
{
    let mut k: usize = i;
    while k < cs.len() && cs[k] != '\n'
        invariant
            i <= k <= cs@.len(),
            line_end(cs@, k as int) == line_end(cs@, i as int),
        decreases cs@.len() - k,
    {
        k = k + 1;
    }
    k
}

fn skip_blank_at(cs: &Vec<char>, i: usize, j: usize) -> (r: usize)
    requires
        i <= j <= cs@.len(),
    ensures
        r == skip_blank(cs@, i as int, j as int),
{
    let mut k: usize = i;
    while k < j && blank(cs[k])
        invariant
            i <= k <= j <= cs@.len(),
            skip_blank(cs@, k as int, j as int) == skip_blank(cs@, i as int, j as int),
        decreases j - k,
    {
        k = k + 1;
    }
    k
}

fn trim_end_at(cs: &Vec<char>, i: usize, j: usize) -> (r: usize)
    requires
        i <= j <= cs@.len(),
    ensures
        r == trim_end(cs@, i as int, j as int),
{
    let mut k: usize = j;
    while k > i && blank(cs[k - 1])
        invariant
            i <= k <= j <= cs@.len(),
            trim_end(cs@, i as int, k as int) == trim_end(cs@, i as int, j as int),
        decreases k - i,
    {
        k = k - 1;
    }
    k
}

fn find_eq_at(cs: &Vec<char>, i: usize, j: usize) -> (r: usize)
    requires
        i <= j <= cs@.len(),
    ensures
        r == find_eq(cs@, i as int, j as int),
{
    let mut k: usize = i;
    while k < j && cs[k] != '='
        invariant
            i <= k <= j <= cs@.len(),
            find_eq(cs@, k as int, j as int) == find_eq(cs@, i as int, j as int),
        decreases j - k,
    {
        k = k + 1;
    }
    k
}

/// Whether `cs[a..b]` spells `key`.
pub(crate) fn span_is(cs: &Vec<char>, a: usize, b: usize, key: &[char]) -> (r: bool)
    requires
        a <= b <= cs@.len(),
    ensures
        r == (cs@.subrange(a as int, b as int) == key@),
{
    if b - a != key.len() {
        return false;
    }
    let mut k: usize = 0;
    while k < key.len()
        invariant
            b - a == key@.len(),
            a <= b <= cs@.len(),
            k <= key@.len(),
            forall|t: int| 0 <= t < k ==> cs@[a + t] == key@[t],
        decreases key@.len() - k,
    {
        if cs[a + k] != key[k] {
            assert(cs@.subrange(a as int, b as int)[k as int] != key@[k as int]);
            return false;
        }
        k = k + 1;
    }
    assert(cs@.subrange(a as int, b as int) =~= key@);
    true
}

pub(crate) fn span_chars(cs: &Vec<char>, a: usize, b: usize) -> (r: Vec<char>)
    requires
        a <= b <= cs@.len(),
    ensures
        r@ == cs@.subrange(a as int, b as int),
{
    let mut r: Vec<char> = Vec::new();
    let mut k: usize = a;
    while k < b
        invariant
            a <= k <= b <= cs@.len(),
            r@ == cs@.subrange(a as int, k as int),
        decreases b - k,
    {
        r.push(cs[k]);
        k = k + 1;
        assert(r@ =~= cs@.subrange(a as int, k as int));
    }
    r
}

pub open spec fn opt_view(o: Option<Vec<char>>) -> Option<Seq<char>> {
    match o {
        Some(v) => Some(v@),
        None => None,
    }
}

impl WorldMeta {
    /// Parses a world descriptor; `backend` and `gameid` are required.
    pub fn parse(text: &str) -> (r: Result<WorldMeta, MetaError>)
        ensures
            match scan_meta(text@, 0, None, None, 1) {
                Err(line) => r == Err::<WorldMeta, MetaError>(MetaError::InvalidMetaLine(line as usize)),
                Ok((None, _)) => r matches Err(MetaError::MissingMetaField(k)) && k@ == backend_key(),
                Ok((Some(_), None)) => r matches Err(MetaError::MissingMetaField(k)) && k@ == game_key(),
                Ok((Some(b), Some(g))) => r matches Ok(m) && m.backend@ == b && m.game@ == g,
            },
    {
        let cs = chars_of(text);
        let backend_name: [char; 7] = ['b', 'a', 'c', 'k', 'e', 'n', 'd'];
        let game_name: [char; 6] = ['g', 'a', 'm', 'e', 'i', 'd'];
        assert(backend_name@ == backend_key());
        assert(game_name@ == game_key());
        let mut backend: Option<Vec<char>> = None;
        let mut game: Option<Vec<char>> = None;
        let mut i: usize = 0;
        let mut done: usize = 0;
        while i < cs.len()
            invariant
                i <= cs@.len(),
                cs@ == text@,
                done <= i,
                backend_name@ == backend_key(),
                game_name@ == game_key(),
                scan_meta(cs@, i as int, opt_view(backend), opt_view(game), (done + 1) as nat)
                    == scan_meta(cs@, 0, None, None, 1),
            decreases cs@.len() + 1 - i,
        {
            let ghost bo = opt_view(backend);
            let ghost go = opt_view(game);
            let ghost l = (done + 1) as nat;
            let e = line_end_at(&cs, i);
            proof {
                lemma_line_end_bounds(cs@, i as int);
            }
            let a = skip_blank_at(&cs, i, e);
            proof {
                lemma_skip_blank_bounds(cs@, i as int, e as int);
            }
            let b = trim_end_at(&cs, a, e);
            proof {
                lemma_trim_end_bounds(cs@, a as int, e as int);
            }
            if a == b || cs[a] == '#' {
                assert(scan_meta(cs@, i as int, bo, go, l) == scan_meta(cs@, e + 1, bo, go, l + 1));
            } else {
                let q = find_eq_at(&cs, a, b);
                proof {
                    lemma_find_eq_bounds(cs@, a as int, b as int);
                }
                if q == b {
                    return Err(MetaError::InvalidMetaLine(done + 1));
                }
                let ke = trim_end_at(&cs, a, q);
                let vs = skip_blank_at(&cs, q + 1, b);
                proof {
                    lemma_trim_end_bounds(cs@, a as int, q as int);
                    lemma_skip_blank_bounds(cs@, q as int + 1, b as int);
                }
                let ghost value = cs@.subrange(vs as int, b as int);
                if span_is(&cs, a, ke, backend_name.as_slice()) {
                    backend = Some(span_chars(&cs, vs, b));
                    assert(scan_meta(cs@, i as int, bo, go, l) == scan_meta(cs@, e + 1, Some(value), go, l + 1));
                } else if span_is(&cs, a, ke, game_name.as_slice()) {
                    game = Some(span_chars(&cs, vs, b));
                    assert(scan_meta(cs@, i as int, bo, go, l) == scan_meta(cs@, e + 1, bo, Some(value), l + 1));
                } else {
                    assert(scan_meta(cs@, i as int, bo, go, l) == scan_meta(cs@, e + 1, bo, go, l + 1));
                }
            }
            if e < cs.len() {
                i = e + 1;
            } else {
                i = e;
            }
            done = done + 1;
        }
        proof {
            assert(scan_meta(cs@, i as int, opt_view(backend), opt_view(game), (done + 1) as nat)
                == Ok::<(Option<Seq<char>>, Option<Seq<char>>), nat>((opt_view(backend), opt_view(game))));
        }
        match backend {
            None => Err(MetaError::MissingMetaField(string_of(backend_name.as_slice()))),
            Some(bv) => match game {
                None => Err(MetaError::MissingMetaField(string_of(game_name.as_slice()))),
                Some(gv) => Ok(WorldMeta { backend: string_of(bv.as_slice()), game: string_of(gv.as_slice()) }),
            },
        }
    }
}

} // verus!
