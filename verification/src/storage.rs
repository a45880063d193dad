use vstd::prelude::*;
use vstd::string::{StrSliceExecFns, StringExecFns};
use crate::digits::{push_hex, spec_hex_digits};
use crate::errors::TimerError;
use crate::text::{chars_to_string, str_to_chars};

verus! {

/// One round of the FNV-1a hash over a character's code point: fold the
/// character in with exclusive-or, then multiply by the FNV prime,
/// wrapping modulo two to the sixty-four.
pub open spec fn spec_fnv1a_step(h: u64, c: char) -> u64 {
    vstd::wrapping::u64_specs::wrapping_mul(h ^ (c as u64), 0x100000001b3)
}

/// The FNV-1a hash of a character sequence, starting from the standard
/// offset basis.
pub open spec fn spec_fnv1a(s: Seq<char>) -> u64
    decreases s.len(),
{
    if s.len() == 0 {
        0xcbf29ce484222325u64
    } else {
        spec_fnv1a_step(spec_fnv1a(s.drop_last()), s.last())
    }
}

/// Computes the stable identifier used to namespace the timer file of a
/// repository: the FNV-1a hash of the repository's absolute root path,
/// rendered as lowercase hexadecimal.  The same root always yields the
/// same identifier; distinct roots collide only with the hash.
pub fn get_repo_unique_id(repo_path: &str) -> (r: String)
    ensures
        r@ == spec_hex_digits(spec_fnv1a(repo_path@) as int),
{
    let v = str_to_chars(repo_path);
    let mut h: u64 = 0xcbf29ce484222325;
    let mut i: usize = 0;
    while i < v.len()
        invariant
            i <= v@.len(),
            v@ == repo_path@,
            h == spec_fnv1a(repo_path@.take(i as int)),
        decreases v@.len() - i,
    {
        let x = h ^ (v[i] as u64);
        h = x.wrapping_mul(0x100000001b3);
        proof {
            assert(repo_path@.take(i + 1 as int).drop_last() =~= repo_path@.take(i as int));
            assert(repo_path@.take(i + 1 as int).last() == repo_path@[i as int]);
        }
        i = i + 1;
    }
    proof {
        assert(repo_path@.take(repo_path@.len() as int) =~= repo_path@);
    }
    let mut out: Vec<char> = Vec::new();
    push_hex(h, &mut out);
    chars_to_string(&out)
}

/// Where the timer file for a repository lives.
///
/// With a non-empty runtime directory and a known repository root, the
/// file sits under the runtime directory; with only a repository root it
/// sits in a hidden directory at the root; with no repository context it
/// is a hidden file in the current directory.
pub open spec fn spec_timer_path(
    runtime_dir: Option<Seq<char>>,
    repo_root: Option<Seq<char>>,
) -> Seq<char> {
    match repo_root {
        None => ".git-timer.json"@,
        Some(root) => {
            let id = spec_hex_digits(spec_fnv1a(root) as int);
            match runtime_dir {
                Some(rt) => if rt.len() > 0 {
                    rt + "/git-timer/repo-"@ + id + ".json"@
                } else {
                    root + "/.git-timer/repo-"@ + id + ".json"@
                },
                None => root + "/.git-timer/repo-"@ + id + ".json"@,
            }
        },
    }
}

/// Resolves the storage path for the timer file from an environment
/// snapshot: the runtime-directory variable, if set, and the repository
/// root, if inside one.  The caller creates the directory chain on demand
/// and performs all file access.
pub fn get_timer_path(runtime_dir: Option<&str>, repo_root: Option<&str>) -> (r: String)
    ensures
        r@ == spec_timer_path(
            match runtime_dir {
                Some(rt) => Some(rt@),
                None => None,
            },
            match repo_root {
                Some(root) => Some(root@),
                None => None,
            },
        ),
{
    match repo_root {
        None => String::from_str(".git-timer.json"),
        Some(root) => {
            let id = get_repo_unique_id(root);
            let use_runtime = match runtime_dir {
                Some(rt) => !rt.is_empty(),
                None => false,
            };
            if use_runtime {
                let rt = match runtime_dir {
                    Some(rt) => rt,
                    None => "",
                };
                let mut p = rt.to_owned();
                p.append("/git-timer/repo-");
                p.append(id.as_str());
                p.append(".json");
                p
            } else {
                let mut p = root.to_owned();
                p.append("/.git-timer/repo-");
                p.append(id.as_str());
                p.append(".json");
                p
            }
        },
    }
}

/// A whitespace character, as stripped from the version-control tool's
/// output.
pub open spec fn spec_is_ws(c: char) -> bool {
    c == ' ' || c == '\n' || c == '\t' || c == '\r'
}

/// `s` with leading whitespace removed.
pub open spec fn spec_trim_front(s: Seq<char>) -> Seq<char>
    decreases s.len(),
{
    if s.len() > 0 && spec_is_ws(s[0]) {
        spec_trim_front(s.drop_first())
    } else {
        s
    }
}

/// `s` with trailing whitespace removed.
pub open spec fn spec_trim_back(s: Seq<char>) -> Seq<char>
    decreases s.len(),
{
    if s.len() > 0 && spec_is_ws(s.last()) {
        spec_trim_back(s.drop_last())
    } else {
        s
    }
}

/// `s` with whitespace removed from both ends.
pub open spec fn spec_trim(s: Seq<char>) -> Seq<char> {
    spec_trim_back(spec_trim_front(s))
}

/// Whether `c` is whitespace.
fn is_ws_char(c: char) -> (r: bool)
    ensures
        r == spec_is_ws(c),
{
    c == ' ' || c == '\n' || c == '\t' || c == '\r'
}

/// The characters of `v` with whitespace removed from both ends.
fn trim_chars(v: &Vec<char>) -> (r: Vec<char>)
    ensures
        r@ == spec_trim(v@),
{
    let mut a: usize = 0;
    proof {
        assert(v@.skip(0) =~= v@);
    }
    while a < v.len() && is_ws_char(v[a])
        invariant
            a <= v@.len(),
            spec_trim_front(v@) == spec_trim_front(v@.skip(a as int)),
        decreases v@.len() - a,
    {
        proof {
            assert(v@.skip(a as int)[0] == v@[a as int]);
            assert(v@.skip(a as int).drop_first() =~= v@.skip(a + 1 as int));
        }
        a = a + 1;
    }
    proof {
        if a < v@.len() {
            assert(v@.skip(a as int)[0] == v@[a as int]);
        }
        assert(spec_trim_front(v@) == v@.skip(a as int));
    }
    let mut b: usize = v.len();
    while b > a && is_ws_char(v[b - 1])
        invariant
            a <= b <= v@.len(),
            spec_trim_front(v@) == v@.skip(a as int),
            spec_trim_back(v@.skip(a as int)) == spec_trim_back(v@.subrange(a as int, b as int)),
        decreases b,
    {
        proof {
            let sub = v@.subrange(a as int, b as int);
            assert(sub.last() == v@[b - 1 as int]);
            assert(sub.drop_last() =~= v@.subrange(a as int, b - 1 as int));
        }
        b = b - 1;
    }
    proof {
        let sub = v@.subrange(a as int, b as int);
        if b > a {
            assert(sub.last() == v@[b - 1 as int]);
        }
        assert(spec_trim_back(v@.subrange(a as int, b as int)) == v@.subrange(a as int, b as int));
    }
    let mut out: Vec<char> = Vec::new();
    let mut k: usize = a;
    while k < b
        invariant
            a <= k <= b <= v@.len(),
            out@ == v@.subrange(a as int, k as int),
        decreases b - k,
    {
        out.push(v[k]);
        proof {
            assert(v@.subrange(a as int, k + 1 as int) =~= v@.subrange(a as int, k as int).push(
                v@[k as int],
            ));
        }
        k = k + 1;
    }
    proof {
        assert(v@.skip(a as int) =~= v@.subrange(a as int, v@.len() as int));
    }
    out
}

/// Decides whether the version-control tool reported that the current
/// directory is inside a working tree: the query must have succeeded and
/// its output, ignoring surrounding whitespace, must be `true`.  Any
/// failure counts as "not a repository", never as an error.
pub fn is_work_tree_output(success: bool, stdout: &str) -> (r: bool)
    ensures
        r == (success && spec_trim(stdout@) == "true"@),
{
    if !success {
        return false;
    }
    let v = str_to_chars(stdout);
    let t = trim_chars(&v);
    proof {
        reveal_strlit("true");
    }
    if t.len() != 4 {
        return false;
    }
    let r = t[0] == 't' && t[1] == 'r' && t[2] == 'u' && t[3] == 'e';
    proof {
        if r {
            assert(t@ =~= "true"@);
        }
    }
    r
}

/// Extracts the repository root path from the version-control tool's
/// output: the output with surrounding whitespace removed, or
/// [`TimerError::NotARepository`] when the query failed.
pub fn repo_path_from_output(success: bool, stdout: &str) -> (r: Result<String, TimerError>)
    ensures
        success ==> (r matches Ok(p) && p@ == spec_trim(stdout@)),
        !success ==> r == Err::<String, TimerError>(TimerError::NotARepository),
{
    if !success {
        return Err(TimerError::NotARepository);
    }
    let v = str_to_chars(stdout);
    let t = trim_chars(&v);
    Ok(chars_to_string(&t))
}

} // verus!
