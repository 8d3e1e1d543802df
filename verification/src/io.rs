//! Reading Apophysis `.flame` files: locating the `<flame ...> ... </flame>`
//! blocks of a multi-flame file, combining the per-block results, and
//! picking a flame out by name.
use vstd::prelude::*;
use vstd::string::*;
use crate::text::str_eq;

verus! {

/// Errors of XML parsing and validation.
#[derive(Debug, Clone)]
pub enum ParseError {
    Xml(String),
    InvalidData(String),
    MissingField(String),
}

impl ParseError {
    /// The error as text: the kind of error, then its detail.
    pub fn message(&self) -> (r: String)
        ensures
            r@ == match self {
                ParseError::Xml(m) => "XML error: "@ + m@,
                ParseError::InvalidData(m) => "Invalid data: "@ + m@,
                ParseError::MissingField(m) => "Missing field: "@ + m@,
            },
    {
        let (prefix, detail) = match self {
            ParseError::Xml(m) => ("XML error: ", m),
            ParseError::InvalidData(m) => ("Invalid data: ", m),
            ParseError::MissingField(m) => ("Missing field: ", m),
        };
        let mut s = String::from_str(prefix);
        s.append(detail.as_str());
        s
    }
}

// ---------------------------------------------------------------------------
// Substring search
// ---------------------------------------------------------------------------

/// `pat` occurs in `s` starting at byte `i`.
pub open spec fn matches_at(s: Seq<u8>, i: int, pat: Seq<u8>) -> bool {
    &&& 0 <= i
    &&& i + pat.len() <= s.len()
    &&& s.subrange(i, i + pat.len()) == pat
}

/// The first occurrence of a non-empty `pat` in `s` at or after `from`, as
/// `str::find` reports it on the tail `s[from..]` (shifted back by `from`).
pub open spec fn find_from(s: Seq<u8>, pat: Seq<u8>, from: int) -> Option<int>
    decreases s.len() - from,
{
    if from < 0 || pat.len() == 0 || from + pat.len() > s.len() {
        None
    } else if matches_at(s, from, pat) {
        Some(from)
    } else {
        find_from(s, pat, from + 1)
    }
}

/// What `find_from` finds is the earliest occurrence.
pub proof fn lemma_find_from(s: Seq<u8>, pat: Seq<u8>, from: int)
    requires
        0 <= from,
        pat.len() > 0,
    ensures
        find_from(s, pat, from) matches Some(i) ==> from <= i && matches_at(s, i, pat) && (forall|
            j: int,
        | from <= j < i ==> !matches_at(s, j, pat)),
        find_from(s, pat, from) is None ==> forall|j: int| from <= j ==> !matches_at(s, j, pat),
    decreases s.len() - from,
{
    if from + pat.len() > s.len() {
    } else if matches_at(s, from, pat) {
    } else {
        lemma_find_from(s, pat, from + 1);
    }
}

/// `<flame ` (with the space that separates the tag name from attributes).
pub open spec fn open_tag() -> Seq<u8> {
    seq![60u8, 102u8, 108u8, 97u8, 109u8, 101u8, 32u8]
}

/// `>`
pub open spec fn tag_end() -> Seq<u8> {
    seq![62u8]
}

/// `</flame>`
pub open spec fn close_tag() -> Seq<u8> {
    seq![60u8, 47u8, 102u8, 108u8, 97u8, 109u8, 101u8, 62u8]
}

fn open_tag_bytes() -> (r: &'static [u8])
    ensures
        r@ == open_tag(),
{
    &[60u8, 102u8, 108u8, 97u8, 109u8, 101u8, 32u8]
}

fn tag_end_bytes() -> (r: &'static [u8])
    ensures
        r@ == tag_end(),
{
    &[62u8]
}

fn close_tag_bytes() -> (r: &'static [u8])
    ensures
        r@ == close_tag(),
{
    &[60u8, 47u8, 102u8, 108u8, 97u8, 109u8, 101u8, 62u8]
}

fn matches_at_exec(s: &[u8], i: usize, pat: &[u8]) -> (r: bool)
    requires
        i + pat@.len() <= s@.len(),
    ensures
        r == matches_at(s@, i as int, pat@),
{
    let n = s.len();
    let mut k: usize = 0;
    while k < pat.len()
        invariant
            n == s@.len(),
            i + pat@.len() <= s@.len(),
            k <= pat@.len(),
            forall|j: int| 0 <= j < k ==> s@[i + j] == pat@[j],
        decreases pat@.len() - k,
    {
        if s[i + k] != pat[k] {
            assert(s@.subrange(i as int, i + pat@.len())[k as int] != pat@[k as int]);
            return false;
        }
        k += 1;
    }
    assert(s@.subrange(i as int, i + pat@.len()) =~= pat@);
    true
}

fn find_exec(s: &[u8], pat: &[u8], from: usize) -> (r: Option<usize>)
    requires
        pat@.len() > 0,
    ensures
        match r {
            Some(i) => find_from(s@, pat@, from as int) == Some(i as int),
            None => find_from(s@, pat@, from as int) is None,
        },
{
    let mut i = from;
    while i < s.len() && pat.len() <= s.len() - i
        invariant
            pat@.len() > 0,
            from <= i,
            find_from(s@, pat@, from as int) == find_from(s@, pat@, i as int),
        decreases s@.len() - i,
    {
        if matches_at_exec(s, i, pat) {
            return Some(i);
        }
        i += 1;
    }
    None
}

// ---------------------------------------------------------------------------
// Flame blocks
// ---------------------------------------------------------------------------

/// The `<flame ...> ... </flame>` blocks found scanning from byte `pos`: a
/// block opens at the next `<flame `, its start tag ends at the next `>`,
/// and it closes at the next `</flame>` after that; scanning resumes just
/// past the close tag.  Each block is a half-open byte range.
pub open spec fn flame_blocks_from(s: Seq<u8>, pos: int) -> Seq<(int, int)>
    decreases s.len() - pos,
{
    if pos < 0 || pos > s.len() {
        Seq::empty()
    } else {
        match find_from(s, open_tag(), pos) {
            None => Seq::empty(),
            Some(a) => match find_from(s, tag_end(), a) {
                None => Seq::empty(),
                Some(o) => match find_from(s, close_tag(), o + 1) {
                    None => Seq::empty(),
                    Some(c) => {
                        proof {
                            lemma_find_from(s, open_tag(), pos);
                            lemma_find_from(s, tag_end(), a);
                            lemma_find_from(s, close_tag(), o + 1);
                        }
                        seq![(a, c + 8)] + flame_blocks_from(s, c + 8)
                    },
                },
            },
        }
    }
}

/// Locate the `<flame ...> ... </flame>` blocks of a `.flame` file, as
/// byte ranges `(start, end)` that include both tags.
pub fn flame_blocks(contents: &str) -> (r: Vec<(usize, usize)>)
    ensures
        r@.map_values(|p: (usize, usize)| (p.0 as int, p.1 as int)) == flame_blocks_from(
            contents.spec_bytes(),
            0,
        ),
{
    let s = contents.as_bytes();
    let open = open_tag_bytes();
    let gt = tag_end_bytes();
    let close = close_tag_bytes();
    let ghost all = flame_blocks_from(s@, 0);
    let mut out: Vec<(usize, usize)> = Vec::new();
    let mut pos: usize = 0;
    let n = s.len();
    loop
        invariant
            n == s@.len(),
            s@ == contents.spec_bytes(),
            open@ == open_tag(),
            gt@ == tag_end(),
            close@ == close_tag(),
            all == flame_blocks_from(s@, 0),
            pos <= s@.len(),
            all == out@.map_values(|p: (usize, usize)| (p.0 as int, p.1 as int))
                + flame_blocks_from(s@, pos as int),
        decreases s@.len() - pos,
    {
        let ghost view_before = out@.map_values(|p: (usize, usize)| (p.0 as int, p.1 as int));
        let a = match find_exec(s, open, pos) {
            Some(a) => a,
            None => {
                assert(all =~= view_before);
                return out;
            },
        };
        proof {
            lemma_find_from(s@, open_tag(), pos as int);
        }
        let o = match find_exec(s, gt, a) {
            Some(o) => o,
            None => {
                assert(all =~= view_before);
                return out;
            },
        };
        proof {
            lemma_find_from(s@, tag_end(), a as int);
        }
        let c = match find_exec(s, close, o + 1) {
            Some(c) => c,
            None => {
                assert(all =~= view_before);
                return out;
            },
        };
        proof {
            lemma_find_from(s@, close_tag(), o + 1);
        }
        out.push((a, c + 8));
        pos = c + 8;
        proof {
            let view_after = out@.map_values(|p: (usize, usize)| (p.0 as int, p.1 as int));
            assert(view_after =~= view_before + seq![(a as int, c + 8)]);
            assert(all =~= view_after + flame_blocks_from(s@, pos as int));
        }
    }
}

/// Every block runs from a `<flame ` to the end of a `</flame>`, lies inside
/// the text, and the blocks come in order without overlapping.
pub proof fn lemma_flame_blocks_well_formed(s: Seq<u8>, pos: int)
    requires
        0 <= pos <= s.len(),
    ensures
        forall|i: int|
            0 <= i < flame_blocks_from(s, pos).len() ==> {
                let b = #[trigger] flame_blocks_from(s, pos)[i];
                &&& pos <= b.0
                &&& matches_at(s, b.0, open_tag())
                &&& matches_at(s, b.1 - 8, close_tag())
                &&& b.0 + 7 <= b.1 - 8
                &&& b.1 <= s.len()
            },
        forall|i: int|
            0 <= i < flame_blocks_from(s, pos).len() - 1 ==> (#[trigger] flame_blocks_from(
                s,
                pos,
            )[i]).1 <= flame_blocks_from(s, pos)[i + 1].0,
    decreases s.len() - pos,
{
    let bs = flame_blocks_from(s, pos);
    lemma_find_from(s, open_tag(), pos);
    if let Some(a) = find_from(s, open_tag(), pos) {
        lemma_find_from(s, tag_end(), a);
        if let Some(o) = find_from(s, tag_end(), a) {
            lemma_find_from(s, close_tag(), o + 1);
            if let Some(c) = find_from(s, close_tag(), o + 1) {
                let rest = flame_blocks_from(s, c + 8);
                lemma_flame_blocks_well_formed(s, c + 8);
                assert(bs == seq![(a, c + 8)] + rest);
                assert(o >= a + 7) by {
                    if o < a + 7 {
                        assert(s.subrange(a, a + 7)[o - a] == s[o]);
                        assert(s.subrange(o, o + 1)[0] == s[o]);
                    }
                }
                assert forall|i: int| 0 <= i < bs.len() - 1 implies (#[trigger] bs[i]).1 <= bs[i
                    + 1].0 by {
                    if i > 0 {
                        assert(bs[i] == rest[i - 1]);
                        assert(bs[i + 1] == rest[i]);
                    }
                }
                assert forall|i: int| 0 <= i < bs.len() implies {
                    let b = #[trigger] bs[i];
                    &&& pos <= b.0
                    &&& matches_at(s, b.0, open_tag())
                    &&& matches_at(s, b.1 - 8, close_tag())
                    &&& b.0 + 7 <= b.1 - 8
                    &&& b.1 <= s.len()
                } by {
                    if i > 0 {
                        assert(bs[i] == rest[i - 1]);
                    }
                }
            }
        }
    }
}

/// Every block found begins with the bytes of `<flame ` and ends with the
/// bytes of `</flame>`.
pub proof fn lemma_flame_blocks_tags(s: Seq<u8>, i: int)
    requires
        0 <= i < flame_blocks_from(s, 0).len(),
    ensures
        ({
            let b = flame_blocks_from(s, 0)[i];
            &&& s.subrange(b.0, b.0 + 7) == seq![60u8, 102u8, 108u8, 97u8, 109u8, 101u8, 32u8]
            &&& s.subrange(b.1 - 8, b.1) == seq![60u8, 47u8, 102u8, 108u8, 97u8, 109u8, 101u8, 62u8]
        }),
{
    lemma_flame_blocks_well_formed(s, 0);
    let b = flame_blocks_from(s, 0)[i];
    assert(matches_at(s, b.0, open_tag()));
    assert(matches_at(s, b.1 - 8, close_tag()));
}

// ---------------------------------------------------------------------------
// Combining per-block results
// ---------------------------------------------------------------------------

/// The successfully parsed values, in order.
pub open spec fn ok_values<T>(rs: Seq<Result<T, ParseError>>) -> Seq<T>
    decreases rs.len(),
{
    if rs.len() == 0 {
        Seq::empty()
    } else {
        let init = ok_values(rs.drop_last());
        match rs.last() {
            Ok(v) => init.push(v),
            Err(_) => init,
        }
    }
}

/// Message of the error reported when no block of a file parses.
pub open spec fn no_flames_message() -> Seq<char> {
    "No valid flames found in file"@
}

/// Keep the blocks that parsed, in file order; a file in which no block
/// parsed is an error.
pub fn collect_parsed_flames<T>(results: Vec<Result<T, ParseError>>) -> (r: Result<
    Vec<T>,
    ParseError,
>)
    ensures
        ok_values(results@).len() == 0 ==> (r matches Err(ParseError::InvalidData(m)) && m@
            == no_flames_message()),
        ok_values(results@).len() > 0 ==> (r matches Ok(v) && v@ == ok_values(results@)),
{
    let ghost orig = results@;
    let mut rest = results;
    let mut out: Vec<T> = Vec::new();
    proof {
        assert(orig.take(0) =~= Seq::<Result<T, ParseError>>::empty());
        assert(orig.skip(0) =~= orig);
    }
    while rest.len() > 0
        invariant
            orig.len() >= rest@.len(),
            rest@ == orig.skip(orig.len() - rest@.len()),
            out@ == ok_values(orig.take(orig.len() - rest@.len())),
        decreases rest@.len(),
    {
        let ghost k = orig.len() - rest@.len();
        let item = rest.remove(0);
        proof {
            assert(orig.take(k + 1).drop_last() =~= orig.take(k));
            assert(orig.take(k + 1).last() == item);
            assert(rest@ =~= orig.skip(k + 1));
        }
        match item {
            Ok(v) => out.push(v),
            Err(_) => {},
        }
    }
    proof {
        assert(orig.take(orig.len() as int) =~= orig);
    }
    if out.len() == 0 {
        proof {
            reveal_strlit("No valid flames found in file");
        }
        Err(ParseError::InvalidData(String::from_str("No valid flames found in file")))
    } else {
        Ok(out)
    }
}

// ---------------------------------------------------------------------------
// Picking a flame by name
// ---------------------------------------------------------------------------

/// `names` joined with `sep` between consecutive entries.
pub open spec fn join_with(names: Seq<Seq<char>>, sep: Seq<char>) -> Seq<char>
    decreases names.len(),
{
    if names.len() == 0 {
        Seq::empty()
    } else if names.len() == 1 {
        names[0]
    } else {
        join_with(names.drop_last(), sep) + sep + names.last()
    }
}

/// The names of a list of named flames.
pub open spec fn flame_names<T>(flames: Seq<(String, T)>) -> Seq<Seq<char>> {
    flames.map_values(|f: (String, T)| f.0@)
}

/// The error text when `name` is not among `names`.
pub open spec fn not_found_message(name: Seq<char>, names: Seq<Seq<char>>) -> Seq<char> {
    "Flame '"@ + name + "' not found in file. Available: "@ + join_with(names, ", "@)
}

/// Index of the first flame called `name`.
pub open spec fn first_named<T>(flames: Seq<(String, T)>, name: Seq<char>) -> Option<int> {
    if exists|i: int| 0 <= i < flames.len() && #[trigger] flames[i].0@ == name {
        Some(
            choose|i: int|
                0 <= i < flames.len() && #[trigger] flames[i].0@ == name && forall|j: int|
                    0 <= j < i ==> flames[j].0@ != name,
        )
    } else {
        None
    }
}

/// Join names with `", "`.
fn join_names(names: &Vec<String>) -> (r: String)
    ensures
        r@ == join_with(names@.map_values(|s: String| s@), ", "@),
{
    let ghost views = names@.map_values(|s: String| s@);
    let mut r = String::new();
    let mut i: usize = 0;
    proof {
        assert(views.take(0) =~= Seq::<Seq<char>>::empty());
    }
    while i < names.len()
        invariant
            views == names@.map_values(|s: String| s@),
            i <= names@.len(),
            r@ == join_with(views.take(i as int), ", "@),
        decreases names@.len() - i,
    {
        proof {
            assert(views.take(i + 1).drop_last() =~= views.take(i as int));
            assert(views.take(i + 1).last() == names@[i as int]@);
        }
        if i > 0 {
            r.append(", ");
        } else {
            assert(views.take(1) =~= seq![views[0]]);
        }
        r.append(names[i].as_str());
        i += 1;
    }
    proof {
        assert(views.take(names@.len() as int) =~= views);
    }
    r
}

/// The flame called `name`; otherwise an error that lists the names there
/// are.
pub fn find_flame_by_name<T>(flames: Vec<(String, T)>, name: &str) -> (r: Result<T, String>)
    ensures
        match first_named(flames@, name@) {
            Some(i) => r == Ok::<T, String>(flames@[i].1),
            None => r matches Err(m) && m@ == not_found_message(name@, flame_names(flames@)),
        },
{
    let mut i: usize = 0;
    while i < flames.len()
        invariant
            i <= flames@.len(),
            forall|j: int| 0 <= j < i ==> flames@[j].0@ != name@,
        decreases flames@.len() - i,
    {
        if str_eq(flames[i].0.as_str(), name) {
            proof {
                let w = choose|k: int|
                    0 <= k < flames@.len() && #[trigger] flames@[k].0@ == name@ && forall|j: int|
                        0 <= j < k ==> flames@[j].0@ != name@;
                assert(0 <= i < flames@.len() && flames@[i as int].0@ == name@);
                assert(w == i as int) by {
                    if w < i {
                    } else if w > i {
                        assert(flames@[i as int].0@ != name@);
                    }
                }
            }
            let mut flames = flames;
            let found = flames.swap_remove(i);
            return Ok(found.1);
        }
        i += 1;
    }
    let mut names: Vec<String> = Vec::new();
    let mut k: usize = 0;
    while k < flames.len()
        invariant
            k <= flames@.len(),
            names@.len() == k,
            forall|j: int| 0 <= j < k ==> #[trigger] names@[j]@ == flames@[j].0@,
        decreases flames@.len() - k,
    {
        names.push(flames[k].0.clone());
        k += 1;
    }
    proof {
        assert(names@.map_values(|s: String| s@) =~= flame_names(flames@));
    }
    let mut m = String::from_str("Flame '");
    m.append(name);
    m.append("' not found in file. Available: ");
    let joined = join_names(&names);
    m.append(joined.as_str());
    proof {
        reveal_strlit("Flame '");
        reveal_strlit("' not found in file. Available: ");
    }
    Err(m)
}

} // verus!
