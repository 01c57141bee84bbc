//! The local name of each task's destination, derived from its source
//! locator or from a name the caller chose.
use vstd::prelude::*;
use vstd::string::StringExecFns;
use vstd::string::StrSliceExecFns;
use crate::decimal::{decimal_chars, push_decimal};
use crate::failure::Failure;

verus! {

#[verifier::external_type_specification]
#[verifier::external_body]
pub struct ExUrl(url::Url);

#[verifier::external_type_specification]
#[verifier::external_body]
pub struct ExParseError(url::ParseError);

/// Whether the URL parser accepts `s` as an absolute locator.
pub uninterp spec fn locator_parses(s: Seq<char>) -> bool;

/// Relies on url::Url::parse: whether it succeeds depends on the text alone.
#[verifier::external_body]
fn parse_locator(s: &str) -> (r: Result<url::Url, url::ParseError>)
    ensures
        r is Ok <==> locator_parses(s@),
{
    url::Url::parse(s)
}

/// Relies on url::Url::path: the percent-encoded path of a parsed locator.
#[verifier::external_body]
fn locator_path(u: &url::Url) -> (r: String) {
    u.path().to_string()
}

/// The index of the last `/` in `p`, or -1 when there is none.
pub open spec fn last_slash(p: Seq<char>) -> int
    decreases p.len(),
{
    if p.len() == 0 {
        -1
    } else if p.last() == '/' {
        p.len() - 1
    } else {
        last_slash(p.drop_last())
    }
}

proof fn lemma_last_slash_bounds(p: Seq<char>)
    ensures
        -1 <= last_slash(p) < p.len(),
        last_slash(p) >= 0 ==> p[last_slash(p)] == '/',
    decreases p.len(),
{
    if p.len() > 0 && p.last() != '/' {
        lemma_last_slash_bounds(p.drop_last());
    }
}

/// The last segment of a path: what follows its last `/`, when the path
/// starts with `/`; a path that does not (an opaque locator) has none. The
/// segment is empty when the path ends with `/`.
pub open spec fn last_segment_of(p: Seq<char>) -> Option<Seq<char>> {
    if p.len() > 0 && p[0] == '/' {
        Some(p.skip(last_slash(p) + 1))
    } else {
        None
    }
}

/// The last segment of the path `path`.
pub fn last_segment(path: &str) -> (r: Option<String>)
    ensures
        r is Some <==> last_segment_of(path@) is Some,
        r is Some ==> r.unwrap()@ == last_segment_of(path@).unwrap(),
{
    let n = path.unicode_len();
    if n == 0 || path.get_char(0) != '/' {
        return None;
    }
    let mut j: usize = n;
    assert(path@.take(n as int) =~= path@);
    while j > 0 && path.get_char(j - 1) != '/'
        invariant
            j <= n,
            n == path@.len(),
            last_slash(path@) == last_slash(path@.take(j as int)),
        decreases j,
    {
        proof {
            assert(path@.take(j as int).drop_last() =~= path@.take(j - 1));
        }
        j = j - 1;
    }
    proof {
        lemma_last_slash_bounds(path@);
        if j > 0 {
            assert(path@.take(j as int).last() == path@[j - 1]);
        } else {
            assert(path@[0] == '/');
            assert(path@.take(0) =~= Seq::<char>::empty());
        }
        assert(last_slash(path@) == j - 1);
    }
    let seg = path.substring_char(j, n);
    assert(seg@ =~= path@.skip(j as int));
    Some(String::from_str(seg))
}

/// `base_n`: a chosen name numbered for one task among several.
pub open spec fn numbered(base: Seq<char>, n: nat) -> Seq<char> {
    base + seq!['_'] + decimal_chars(n)
}

/// The destination name of task `index` among `count`: the chosen output
/// name as it is for a single task, or numbered from 1 for several; without
/// one, the last segment of the locator's path, or `file_<n>` when the path
/// has none.
pub open spec fn destination_of(index: nat, count: nat, output: Option<Seq<char>>, segment: Option<Seq<char>>) -> Seq<char> {
    match output {
        Some(o) => if count == 1 {
            o
        } else {
            numbered(o, index + 1)
        },
        None => match segment {
            Some(s) => s,
            None => numbered(seq!['f', 'i', 'l', 'e'], index + 1),
        },
    }
}

pub open spec fn opt_view(v: Option<&str>) -> Option<Seq<char>> {
    match v {
        Some(s) => Some(s@),
        None => None,
    }
}

/// The destination name of task `index` among `count`, given the chosen
/// output name, if any, and the last segment of its locator's path, if any.
pub fn destination_name(index: usize, count: usize, output: Option<&str>, segment: Option<String>) -> (r: String)
    requires
        index < count,
    ensures
        r@ == destination_of(
            index as nat,
            count as nat,
            opt_view(output),
            match segment { Some(s) => Some(s@), None => None },
        ),
{
    match output {
        Some(o) => {
            if count == 1 {
                String::from_str(o)
            } else {
                let mut s = String::from_str(o);
                s.append("_");
                push_decimal(&mut s, (index + 1) as u64);
                proof {
                    reveal_strlit("_");
                    assert(s@ =~= numbered(o@, (index + 1) as nat));
                }
                s
            }
        },
        None => match segment {
            Some(seg) => seg,
            None => {
                let mut s = String::from_str("file_");
                push_decimal(&mut s, (index + 1) as u64);
                proof {
                    reveal_strlit("file_");
                    assert(s@ =~= numbered(seq!['f', 'i', 'l', 'e'], (index + 1) as nat));
                }
                s
            },
        },
    }
}

/// Checks the source locator of task `index` among `count` and derives its
/// destination name. A locator that does not parse is a configuration
/// failure, found before any task is scheduled.
pub fn task_destination(source: &str, index: usize, count: usize, output: Option<&str>) -> (r: Result<String, Failure>)
    requires
        index < count,
    ensures
        r is Err <==> !locator_parses(source@),
        r is Err ==> r == Err::<String, Failure>(Failure::Configuration),
        r is Ok && output is Some ==> r->Ok_0@ == destination_of(index as nat, count as nat, opt_view(output), None),
        r is Ok && output is None ==> exists|p: Seq<char>|
            r->Ok_0@ == destination_of(index as nat, count as nat, None, last_segment_of(p)),
{
    match parse_locator(source) {
        Err(_) => Err(Failure::Configuration),
        Ok(u) => {
            match output {
                Some(_) => Ok(destination_name(index, count, output, None)),
                None => {
                    let path = locator_path(&u);
                    let seg = last_segment(path.as_str());
                    let name = destination_name(index, count, None, seg);
                    assert(name@ == destination_of(index as nat, count as nat, None, last_segment_of(path@)));
                    Ok(name)
                },
            }
        },
    }
}

} // verus!
