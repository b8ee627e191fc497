//! Locating the projector executable and addressing it.
//!
//! Probing the file system and starting the process are the application's;
//! which of the probed places is taken, and what is said when none is
//! there, is decided here.

use crate::sorting::{is_sorted_set_of, sorted_unique, texts_bytes};
use crate::url_parts::{
    origin_of, path_of, query_pairs_of, url_origin, url_parses, url_path, url_query_pairs,
};
use std::path::PathBuf;
use vstd::prelude::*;
use vstd::string::*;

verus! {

/// What the application found of one place where the projector may lie.
#[derive(Debug)]
pub struct PathProbe {
    pub path: PathBuf,
    /// The path as it is shown to the user.
    pub shown: String,
    /// Whether a file is there.
    pub exists: bool,
}

/// How many places next to the launcher's own executable are tried.
pub const DEV_CANDIDATE_COUNT: usize = 5;

/// The places that are tried next to the launcher's own executable, each as
/// path components below the executable's directory.
pub open spec fn dev_candidate(k: int) -> Seq<Seq<char>> {
    if k == 0 {
        seq!["resources"@, "projector.exe"@]
    } else if k == 1 {
        seq![".."@, "resources"@, "projector.exe"@]
    } else if k == 2 {
        seq![".."@, ".."@, "resources"@, "projector.exe"@]
    } else if k == 3 {
        seq![".."@, ".."@, "debug"@, "resources"@, "projector.exe"@]
    } else {
        seq![".."@, ".."@, "release"@, "resources"@, "projector.exe"@]
    }
}

pub open spec fn strs_view(parts: Seq<&'static str>) -> Seq<Seq<char>> {
    Seq::new(parts.len(), |i: int| parts[i]@)
}

/// The components of place number `k` next to the executable.
pub fn dev_candidate_components(k: usize) -> (r: Vec<&'static str>)
    requires
        k < DEV_CANDIDATE_COUNT,
    ensures
        strs_view(r@) == dev_candidate(k as int),
{
    let mut parts: Vec<&'static str> = Vec::new();
    if k >= 1 {
        parts.push("..");
    }
    if k >= 2 {
        parts.push("..");
    }
    if k == 3 {
        parts.push("debug");
    }
    if k == 4 {
        parts.push("release");
    }
    parts.push("resources");
    parts.push("projector.exe");
    assert(strs_view(parts@) =~= dev_candidate(k as int));
    parts
}

/// The first probe that found a file, if any.
pub open spec fn first_existing(probes: Seq<PathProbe>) -> Option<PathBuf>
    decreases probes.len(),
{
    if probes.len() == 0 {
        None
    } else if probes[0].exists {
        Some(probes[0].path)
    } else {
        first_existing(probes.drop_first())
    }
}

/// What is said when the projector is nowhere.
pub open spec fn not_located_message(resolved: Seq<char>, fallback: Seq<char>) -> Seq<char> {
    "Failed to locate projector.exe. Checked: "@ + resolved + ", "@ + fallback
        + ", and dev resources."@
}

/// Where the projector is, or why it is not to be had.
///
/// `resolved` is the bundled resource, `None` where its place could not be
/// worked out; `fallback` the same file looked for directly in the resource
/// directory, `None` where that directory could not be had; `dev` the places
/// next to the launcher's executable. The first place with a file wins, in
/// this order.
pub open spec fn spec_resolve_projector_path(
    resolved: Option<PathProbe>,
    fallback: Option<PathProbe>,
    dev: Seq<PathProbe>,
) -> Result<PathBuf, Seq<char>> {
    match resolved {
        None => Err("Failed to resolve resource directory."@),
        Some(first) => if first.exists {
            Ok(first.path)
        } else {
            match fallback {
                None => Err("Failed to get resource directory."@),
                Some(second) => if second.exists {
                    Ok(second.path)
                } else {
                    match first_existing(dev) {
                        Some(path) => Ok(path),
                        None => Err(not_located_message(first.shown@, second.shown@)),
                    }
                },
            }
        },
    }
}

/// Chooses the projector executable among the places that were probed.
pub fn resolve_projector_path(
    resolved: Option<PathProbe>,
    fallback: Option<PathProbe>,
    dev: Vec<PathProbe>,
) -> (r: Result<PathBuf, String>)
    ensures
        match (r, spec_resolve_projector_path(resolved, fallback, dev@)) {
            (Ok(path), Ok(expected)) => path == expected,
            (Err(message), Err(expected)) => message@ == expected,
            _ => false,
        },
{
    let first = match resolved {
        Some(probe) => probe,
        None => {
            return Err("Failed to resolve resource directory.".to_owned());
        },
    };
    if first.exists {
        return Ok(first.path);
    }
    let second = match fallback {
        Some(probe) => probe,
        None => {
            return Err("Failed to get resource directory.".to_owned());
        },
    };
    if second.exists {
        return Ok(second.path);
    }
    let ghost all = dev@;
    let mut rest = dev;
    let mut found: Option<PathBuf> = None;
    assert(all.skip(all.len() as int) =~= Seq::<PathProbe>::empty());
    while rest.len() > 0
        invariant
            rest@.len() <= all.len(),
            forall|k: int| 0 <= k < rest@.len() ==> rest@[k] == all[k],
            found == first_existing(all.skip(rest@.len() as int)),
        decreases rest@.len(),
    {
        let ghost n = rest@.len() as int;
        let probe = rest.pop().unwrap();
        proof {
            assert(probe == all[n - 1]);
            assert(all.skip(n - 1)[0] == all[n - 1]);
            assert(all.skip(n - 1).drop_first() =~= all.skip(n));
        }
        if probe.exists {
            found = Some(probe.path);
        }
    }
    assert(all.skip(0) =~= all);
    match found {
        Some(path) => Ok(path),
        None => {
            let mut message = "Failed to locate projector.exe. Checked: ".to_owned();
            message.append(first.shown.as_str());
            message.append(", ");
            message.append(second.shown.as_str());
            message.append(", and dev resources.");
            Err(message)
        },
    }
}

/// The command line that starts the projector: the executable's path in
/// double quotes, a space, and the URL.
pub open spec fn spec_command_line(path: Seq<char>, url: Seq<char>) -> Seq<char> {
    "\""@ + path + "\" "@ + url
}

/// Writes the command line that starts the projector with `swf_url` as its
/// single argument.
pub fn projector_command_line(path: &str, swf_url: &str) -> (r: String)
    ensures
        r@ == spec_command_line(path@, swf_url@),
{
    let mut line = "\"".to_owned();
    line.append(path);
    line.append("\" ");
    line.append(swf_url);
    line
}

/// What is said when the projector does not start.
pub fn launch_failed_message() -> (r: String)
    ensures
        r@ == "Failed to launch projector."@,
{
    "Failed to launch projector.".to_owned()
}

/// The texts of a list, with `separator` between them.
pub open spec fn joined(texts: Seq<Seq<char>>, separator: Seq<char>) -> Seq<char>
    decreases texts.len(),
{
    if texts.len() == 0 {
        Seq::empty()
    } else if texts.len() == 1 {
        texts[0]
    } else {
        joined(texts.drop_last(), separator) + separator + texts.last()
    }
}

/// The bytes of the names of the pairs of a query.
pub open spec fn pair_names(pairs: Seq<(Seq<char>, Seq<char>)>) -> Seq<Seq<u8>> {
    Seq::new(pairs.len(), |i: int| vstd::utf8::encode_utf8(pairs[i].0))
}

pub open spec fn encoded(texts: Seq<Seq<char>>) -> Seq<Seq<u8>> {
    Seq::new(texts.len(), |i: int| vstd::utf8::encode_utf8(texts[i]))
}

/// `line` is what a URL is logged as: its origin and path, and, where its
/// query has pairs, ` ?keys=` and the names of the pairs, each once, in the
/// order of their bytes, with commas between them. No value of the query is
/// part of it.
pub open spec fn is_log_form_of(line: Seq<char>, url: Seq<char>) -> bool {
    if !url_parses(url) {
        line == "<invalid-url>"@
    } else if url_query_pairs(url).len() == 0 {
        line == url_origin(url) + url_path(url)
    } else {
        exists|keys: Seq<Seq<char>>|
            {
                &&& is_sorted_set_of(encoded(keys), pair_names(url_query_pairs(url)))
                &&& line == url_origin(url) + url_path(url) + " ?keys="@ + joined(keys, ","@)
            }
    }
}

pub open spec fn strings_view(texts: Seq<String>) -> Seq<Seq<char>> {
    Seq::new(texts.len(), |i: int| texts[i]@)
}

fn join_with_commas(texts: &Vec<String>) -> (r: String)
    ensures
        r@ == joined(strings_view(texts@), ","@),
{
    let mut out = String::new();
    let mut i: usize = 0;
    assert(strings_view(texts@).take(0) =~= Seq::<Seq<char>>::empty());
    while i < texts.len()
        invariant
            i <= texts.len(),
            out@ == joined(strings_view(texts@).take(i as int), ","@),
        decreases texts.len() - i,
    {
        proof {
            let all = strings_view(texts@);
            assert(all.take(i + 1).drop_last() =~= all.take(i as int));
            assert(all.take(i + 1).last() == texts@[i as int]@);
            assert(all.take(i + 1)[0] == all[0]);
        }
        if i > 0 {
            out.append(",");
        }
        out.append(texts[i].as_str());
        proof {
            let all = strings_view(texts@);
            if i == 0 {
                assert(out@ =~= all.take(1)[0]);
            } else {
                assert(out@ =~= joined(all.take(i as int), ","@) + ","@ + all.take(i + 1).last());
            }
        }
        i += 1;
    }
    assert(strings_view(texts@).take(i as int) =~= strings_view(texts@));
    out
}

fn names_of(pairs: Vec<(String, String)>) -> (r: Vec<String>)
    ensures
        r@.len() == pairs@.len(),
        forall|i: int|
            0 <= i < r@.len() ==> (#[trigger] r@[i])@ == pairs@[pairs@.len() - 1 - i].0@,
{
    let ghost all = pairs@;
    let mut rest = pairs;
    let mut names: Vec<String> = Vec::new();
    while rest.len() > 0
        invariant
            rest@.len() + names@.len() == all.len(),
            forall|k: int| 0 <= k < rest@.len() ==> rest@[k] == all[k],
            forall|i: int|
                0 <= i < names@.len() ==> (#[trigger] names@[i])@ == all[all.len() - 1 - i].0@,
        decreases rest@.len(),
    {
        let pair = rest.pop().unwrap();
        names.push(pair.0);
    }
    names
}

/// Writes a URL for the log without any of its query's values: origin and
/// path, then the names of the query's pairs, sorted, each once. A text
/// that is no URL is logged as `<invalid-url>`.
pub fn sanitize_url_for_log(url: &str) -> (r: String)
    ensures
        is_log_form_of(r@, url@),
{
    let origin = match origin_of(url) {
        Some(origin) => origin,
        None => {
            return "<invalid-url>".to_owned();
        },
    };
    let path = path_of(url).unwrap();
    let pairs = query_pairs_of(url).unwrap();
    let ghost parsed = crate::url_parts::pairs_view(pairs@);
    let empty = pairs.len() == 0;
    let names = names_of(pairs);
    let keys = sorted_unique(names);
    let mut line = origin;
    line.append(path.as_str());
    if empty {
        return line;
    }
    line.append(" ?keys=");
    let list = join_with_commas(&keys);
    line.append(list.as_str());
    proof {
        let shown = strings_view(keys@);
        let wanted = pair_names(url_query_pairs(url@));
        assert(encoded(shown) =~= texts_bytes(keys@));
        assert forall|i: int| 0 <= i < texts_bytes(names@).len() implies wanted.contains(
            #[trigger] texts_bytes(names@)[i],
        ) by {
            assert(names@[i]@ == parsed[parsed.len() - 1 - i].0);
            assert(wanted[parsed.len() - 1 - i] == texts_bytes(names@)[i]);
        }
        assert forall|i: int| 0 <= i < wanted.len() implies texts_bytes(names@).contains(
            #[trigger] wanted[i],
        ) by {
            let j = parsed.len() - 1 - i;
            assert(names@[j]@ == parsed[i].0);
            assert(texts_bytes(names@)[j] == wanted[i]);
        }
        assert forall|i: int| 0 <= i < encoded(shown).len() implies wanted.contains(
            #[trigger] encoded(shown)[i],
        ) by {
            let t = texts_bytes(keys@)[i];
            assert(texts_bytes(names@).contains(t));
            let k = texts_bytes(names@).index_of(t);
            assert(wanted.contains(texts_bytes(names@)[k]));
        }
        assert forall|i: int| 0 <= i < wanted.len() implies encoded(shown).contains(
            #[trigger] wanted[i],
        ) by {
            assert(texts_bytes(names@).contains(wanted[i]));
            let k = texts_bytes(names@).index_of(wanted[i]);
            assert(texts_bytes(keys@).contains(texts_bytes(names@)[k]));
        }
        assert(is_sorted_set_of(encoded(shown), wanted));
        assert(line@ =~= url_origin(url@) + url_path(url@) + " ?keys="@ + joined(shown, ","@));
    }
    line
}

/// Writes a URL without its query: origin and path. A text that is no URL
/// is written as `redacted`.
pub fn redact_url(url: &str) -> (r: String)
    ensures
        r@ == if url_parses(url@) {
            url_origin(url@) + url_path(url@)
        } else {
            "redacted"@
        },
{
    match origin_of(url) {
        Some(origin) => {
            let path = path_of(url).unwrap();
            let mut line = origin;
            line.append(path.as_str());
            line
        },
        None => "redacted".to_owned(),
    }
}

} // verus!
