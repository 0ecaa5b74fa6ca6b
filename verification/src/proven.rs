//! The index of proof documents: which written proof belongs to which name,
//! and the link under which a proof is published.
use crate::error::{fails_with, Error, ErrorVariant, ErrorView, Fallible};
use std::collections::HashMap;
use vstd::prelude::*;
use vstd::string::StringExecFns;

verus! {

/// One entry of the index: a name, and the path of its proof unless several proofs claim the name.
pub type Entry = (String, Option<String>);

/// The text of an optional path.
pub open spec fn path_text(path: Option<String>) -> Option<Seq<char>> {
    match path {
        Some(p) => Some(p@),
        None => None,
    }
}

/// Whether no name occurs twice among `entries`.
pub open spec fn unique_names(entries: Seq<Entry>) -> bool {
    forall|i: int, j: int| 0 <= i < j < entries.len() ==> (#[trigger] entries[i]).0@ != (#[trigger] entries[j]).0@
}

/// The entries as a map from names to paths.
pub open spec fn as_map(entries: Seq<Entry>) -> Map<Seq<char>, Option<Seq<char>>> {
    Map::new(
        |name: Seq<char>| exists|i: int| 0 <= i < entries.len() && (#[trigger] entries[i]).0@ == name,
        |name: Seq<char>|
            path_text(entries[choose|i: int| 0 <= i < entries.len() && (#[trigger] entries[i]).0@ == name].1),
    )
}

/// What `serde_json::from_str` reads from a text when asked for a map from
/// strings to optional strings, or `None` where it fails. The result depends
/// on the text alone.
pub uninterp spec fn json_proof_paths(text: Seq<char>) -> Option<Map<Seq<char>, Option<Seq<char>>>>;

/// Calls `serde_json::to_string` on the entries, collected into a hash map
/// as the index is kept on disk. The encoder documents two reasons to fail:
/// a value whose own way of writing itself fails, and a map whose keys are
/// not strings. A map from strings to optional strings gives it neither, so
/// the claim is that a text comes back. The order in which a hash map is
/// written is not fixed, so nothing is claimed of the text.
#[verifier::external_body]
fn to_json(entries: &Vec<Entry>) -> (r: Option<String>)
    ensures
        r is Some,
{
    let map: HashMap<String, Option<String>> = entries.iter().cloned().collect();
    serde_json::to_string(&map).ok()
}

/// Calls `serde_json::from_str` for a map from strings to optional strings
/// and lists the map, or returns `None` where the decoder fails. The keys of
/// a map are distinct; the order of the list is that of the hash map and
/// means nothing.
#[verifier::external_body]
fn from_json(text: &str) -> (r: Option<Vec<Entry>>)
    ensures
        match r {
            Some(entries) => unique_names(entries@) && json_proof_paths(text@) == Some(as_map(entries@)),
            None => json_proof_paths(text@).is_none(),
        },
{
    serde_json::from_str::<HashMap<String, Option<String>>>(text).ok().map(|map| map.into_iter().collect())
}

/// How often the name `name` occurs among the files `files`, each given by
/// its name and its path.
pub open spec fn occurrences(files: Seq<(String, String)>, name: Seq<char>) -> nat
    decreases files.len(),
{
    if files.len() == 0 {
        0
    } else {
        occurrences(files.drop_last(), name) + if files.last().0@ == name {
            1nat
        } else {
            0nat
        }
    }
}

/// Whether `entries` is the index of `files`: it holds each name that
/// occurs among the files once, with the path of the file where the name
/// occurs once and with no path where several files share the name.
pub open spec fn is_index(entries: Seq<Entry>, files: Seq<(String, String)>) -> bool {
    &&& unique_names(entries)
    &&& forall|k: int|
        0 <= k < entries.len() ==> occurrences(files, (#[trigger] entries[k]).0@) >= 1 && (entries[k].1.is_some()
            <==> occurrences(files, entries[k].0@) == 1)
    &&& forall|k: int|
        0 <= k < entries.len() && (#[trigger] entries[k]).1.is_some() ==> exists|i: int|
            0 <= i < files.len() && (#[trigger] files[i]).0@ == entries[k].0@ && files[i].1@
                == entries[k].1.unwrap()@
    &&& forall|i: int|
        0 <= i < files.len() ==> exists|k: int|
            0 <= k < entries.len() && (#[trigger] entries[k]).0@ == (#[trigger] files[i]).0@
}

/// The index of proof documents: a map from names to optional paths, held
/// as a list of entries. Where no name occurs twice the list and the map say
/// the same, and the functions that build an index establish that.
pub struct ProofPaths {
    pub entries: Vec<Entry>,
}

impl View for ProofPaths {
    type V = Map<Seq<char>, Option<Seq<char>>>;

    open spec fn view(&self) -> Map<Seq<char>, Option<Seq<char>>> {
        as_map(self.entries@)
    }
}

fn find_name(entries: &Vec<Entry>, name: &String) -> (r: Option<usize>)
    ensures
        match r {
            Some(k) => k < entries.len() && entries@[k as int].0@ == name@,
            None => forall|k: int| 0 <= k < entries.len() ==> (#[trigger] entries@[k]).0@ != name@,
        },
{
    let mut k: usize = 0;
    while k < entries.len()
        invariant
            k <= entries.len(),
            forall|j: int| 0 <= j < k ==> (#[trigger] entries@[j]).0@ != name@,
        decreases entries.len() - k,
    {
        if entries[k].0 == *name {
            return Some(k);
        }
        k = k + 1;
    }
    None
}

/// A name that occurs among the first files occurs among all of them.
proof fn lemma_occurs(files: Seq<(String, String)>, i: int)
    requires
        0 <= i < files.len(),
    ensures
        occurrences(files, files[i].0@) >= 1,
    decreases files.len(),
{
    if i < files.len() - 1 {
        lemma_occurs(files.drop_last(), i);
    }
}

/// A name that occurs among the files is the name of one of them.
proof fn lemma_occurrence(files: Seq<(String, String)>, name: Seq<char>)
    requires
        occurrences(files, name) >= 1,
    ensures
        exists|i: int| 0 <= i < files.len() && (#[trigger] files[i]).0@ == name,
    decreases files.len(),
{
    if files.last().0@ == name {
        assert(files[files.len() - 1].0@ == name);
    } else {
        lemma_occurrence(files.drop_last(), name);
        let i = choose|i: int| 0 <= i < files.drop_last().len() && (#[trigger] files.drop_last()[i]).0@ == name;
        assert(files[i].0@ == name);
    }
}

/// Builds the index of the proofs among `files`, each given by its name and
/// its path. A name that several files share is kept without a path: it no
/// longer says which proof is meant.
pub fn index_proof_files(files: &Vec<(String, String)>) -> (r: ProofPaths)
    ensures
        is_index(r.entries@, files@),
{
    let mut entries: Vec<Entry> = Vec::new();
    let mut i: usize = 0;
    proof {
        assert(files@.subrange(0, 0) =~= Seq::<(String, String)>::empty());
    }
    while i < files.len()
        invariant
            i <= files.len(),
            is_index(entries@, files@.subrange(0, i as int)),
        decreases files.len() - i,
    {
        let ghost before = files@.subrange(0, i as int);
        let ghost after = files@.subrange(0, i + 1);
        let ghost old_entries = entries@;
        proof {
            assert(after.drop_last() =~= before);
            assert(after.last() == files@[i as int]);
        }
        let name = files[i].0.clone();
        let path = files[i].1.clone();
        match find_name(&entries, &name) {
            Some(k) => {
                let replaced: Entry = (name, None);
                entries.set(k, replaced);
                proof {
                    assert forall|j: int| 0 <= j < entries@.len() implies occurrences(
                        after,
                        (#[trigger] entries@[j]).0@,
                    ) >= 1 && (entries@[j].1.is_some() <==> occurrences(after, entries@[j].0@) == 1) by {
                        assert(entries@[j].0@ == old_entries[j].0@);
                        assert(occurrences(before, old_entries[j].0@) >= 1);
                        if j != k {
                            assert(entries@[j] == old_entries[j]);
                            if j < k {
                                assert(old_entries[j].0@ != old_entries[k as int].0@);
                            } else {
                                assert(old_entries[k as int].0@ != old_entries[j].0@);
                            }
                        }
                    }
                    assert forall|j: int| 0 <= j < entries@.len() && (#[trigger] entries@[j]).1.is_some() implies exists|
                        m: int,
                    |
                        0 <= m < after.len() && (#[trigger] after[m]).0@ == entries@[j].0@ && after[m].1@
                            == entries@[j].1.unwrap()@ by {
                        assert(entries@[j] == old_entries[j]);
                        let m = choose|m: int|
                            0 <= m < before.len() && (#[trigger] before[m]).0@ == old_entries[j].0@ && before[m].1@
                                == old_entries[j].1.unwrap()@;
                        assert(after[m] == before[m]);
                    }
                    assert forall|m: int| 0 <= m < after.len() implies exists|j: int|
                        0 <= j < entries@.len() && (#[trigger] entries@[j]).0@ == (#[trigger] after[m]).0@ by {
                        if m < before.len() {
                            assert(after[m] == before[m]);
                            let j = choose|j: int|
                                0 <= j < old_entries.len() && (#[trigger] old_entries[j]).0@ == before[m].0@;
                            assert(entries@[j].0@ == old_entries[j].0@);
                        } else {
                            assert(entries@[k as int].0@ == after[m].0@);
                        }
                    }
                    assert(unique_names(entries@)) by {
                        assert forall|a: int, b: int| 0 <= a < b < entries@.len() implies (#[trigger] entries@[a]).0@
                            != (#[trigger] entries@[b]).0@ by {
                            assert(entries@[a].0@ == old_entries[a].0@);
                            assert(entries@[b].0@ == old_entries[b].0@);
                        }
                    }
                }
            },
            None => {
                let added: Entry = (name, Some(path));
                entries.push(added);
                proof {
                    if occurrences(before, name@) >= 1 {
                        lemma_occurrence(before, name@);
                        let m = choose|m: int| 0 <= m < before.len() && (#[trigger] before[m]).0@ == name@;
                        let j = choose|j: int|
                            0 <= j < old_entries.len() && (#[trigger] old_entries[j]).0@ == before[m].0@;
                        assert(false);
                    }
                    assert forall|j: int| 0 <= j < entries@.len() implies occurrences(
                        after,
                        (#[trigger] entries@[j]).0@,
                    ) >= 1 && (entries@[j].1.is_some() <==> occurrences(after, entries@[j].0@) == 1) by {
                        if j < old_entries.len() {
                            assert(entries@[j] == old_entries[j]);
                            assert(old_entries[j].0@ != name@);
                            assert(occurrences(before, old_entries[j].0@) >= 1);
                        }
                    }
                    assert forall|j: int| 0 <= j < entries@.len() && (#[trigger] entries@[j]).1.is_some() implies exists|
                        m: int,
                    |
                        0 <= m < after.len() && (#[trigger] after[m]).0@ == entries@[j].0@ && after[m].1@
                            == entries@[j].1.unwrap()@ by {
                        if j < old_entries.len() {
                            assert(entries@[j] == old_entries[j]);
                            let m = choose|m: int|
                                0 <= m < before.len() && (#[trigger] before[m]).0@ == old_entries[j].0@
                                    && before[m].1@ == old_entries[j].1.unwrap()@;
                            assert(after[m] == before[m]);
                        } else {
                            assert(after[i as int].0@ == entries@[j].0@);
                        }
                    }
                    assert forall|m: int| 0 <= m < after.len() implies exists|j: int|
                        0 <= j < entries@.len() && (#[trigger] entries@[j]).0@ == (#[trigger] after[m]).0@ by {
                        if m < before.len() {
                            assert(after[m] == before[m]);
                            let j = choose|j: int|
                                0 <= j < old_entries.len() && (#[trigger] old_entries[j]).0@ == before[m].0@;
                            assert(entries@[j] == old_entries[j]);
                        } else {
                            assert(entries@[old_entries.len() as int].0@ == after[m].0@);
                        }
                    }
                    assert(unique_names(entries@)) by {
                        assert forall|a: int, b: int| 0 <= a < b < entries@.len() implies (#[trigger] entries@[a]).0@
                            != (#[trigger] entries@[b]).0@ by {
                            assert(entries@[a] == old_entries[a]);
                            if b < old_entries.len() {
                                assert(entries@[b] == old_entries[b]);
                            }
                        }
                    }
                }
            },
        }
        i = i + 1;
    }
    assert(files@.subrange(0, i as int) =~= files@);
    ProofPaths { entries }
}

impl ProofPaths {
    /// The path recorded for `name`: `Some(None)` where several proofs claim
    /// the name, and `None` where the index does not hold the name.
    pub fn get(&self, name: &String) -> (r: Option<Option<String>>)
        ensures
            match r {
                Some(path) => exists|k: int|
                    0 <= k < self.entries.len() && (#[trigger] self.entries@[k]).0@ == name@ && path_text(
                        self.entries@[k].1,
                    ) == path_text(path),
                None => !self@.dom().contains(name@),
            },
    {
        match find_name(&self.entries, name) {
            Some(k) => Some(self.entries[k].1.clone()),
            None => None,
        }
    }

    /// Writes the index as JSON, which always succeeds: the encoder has no
    /// reason to refuse a map from names to optional paths.
    pub fn to_json(&self) -> (r: Fallible<String>)
        ensures
            r is Ok,
    {
        written_paths(to_json(&self.entries))
    }

    /// Reads an index from JSON. Succeeds exactly when the text holds a map
    /// from names to optional paths, and then returns that map.
    pub fn from_json(text: &str) -> (r: Fallible<ProofPaths>)
        ensures
            match json_proof_paths(text@) {
                Some(map) => r matches Ok(paths) && paths@ == map && unique_names(paths.entries@),
                None => fails_with(r, ErrorVariant::FailedFunction),
            },
    {
        proven_paths(from_json(text))
    }
}

/// What reading an index returns, given what the decoder returned.
pub fn proven_paths(decoded: Option<Vec<Entry>>) -> (r: Fallible<ProofPaths>)
    ensures
        match decoded {
            Some(entries) => r matches Ok(paths) && paths.entries == entries,
            None => fails_with(r, ErrorVariant::FailedFunction),
        },
{
    match decoded {
        Some(entries) => Ok(ProofPaths { entries }),
        None => Err(Error::with_message(ErrorVariant::FailedFunction, "the proof paths could not be read")),
    }
}

/// What writing an index returns, given what the encoder returned: the
/// text as it is, or a `FailedFunction` error that says that nothing was written.
pub fn written_paths(encoded: Option<String>) -> (r: Fallible<String>)
    ensures
        match encoded {
            Some(text) => r matches Ok(written) && written == text,
            None => r matches Err(e) && e@ == (ErrorView {
                variant: ErrorVariant::FailedFunction,
                message: Some("the proof paths could not be written"@),
            }),
        },
{
    match encoded {
        Some(text) => Ok(text),
        None => Err(Error::with_message(ErrorVariant::FailedFunction, "the proof paths could not be written")),
    }
}

/// The address under which the proofs of the version `version` are
/// published: a local documentation server when a port is given, and else
/// the documentation site, where the development version is found under `latest`.
pub open spec fn proof_uri(
    sphinx_port: Option<Seq<char>>,
    docs_uri: Option<Seq<char>>,
    version: Seq<char>,
) -> Seq<char> {
    match sphinx_port {
        Some(port) => "http://localhost:"@ + port,
        None => (match docs_uri {
            Some(uri) => uri,
            None => "https://docs.opendp.org"@,
        }) + "/en/"@ + (if version == "0.0.0+development"@ {
            "latest"@
        } else {
            version
        }),
    }
}

/// The link to the proof document at `pdf_path`, as it stands in documentation.
pub open spec fn proof_link_text(
    pdf_path: Seq<char>,
    sphinx_port: Option<Seq<char>>,
    docs_uri: Option<Seq<char>>,
    version: Seq<char>,
) -> Seq<char> {
    "[(Proof Document)]("@ + proof_uri(sphinx_port, docs_uri, version) + "/proofs/rust/src/"@ + pdf_path + ") "@
}

/// The view of an optional text.
pub open spec fn optional_text(text: Option<&str>) -> Option<Seq<char>> {
    match text {
        Some(t) => Some(t@),
        None => None,
    }
}

/// Writes the link to a proof document. `exists` says whether the source of
/// the proof was found at `absolute_path`; where it was not, the link is
/// refused with `FailedFunction`. `pdf_path` is the path of the proof, relative
/// to the sources, with the extension of the published document.
pub fn make_proof_link(
    exists: bool,
    absolute_path: &str,
    pdf_path: &str,
    sphinx_port: Option<&str>,
    docs_uri: Option<&str>,
    version: &str,
) -> (r: Fallible<String>)
    ensures
        match r {
            Ok(link) => exists && link@ == proof_link_text(
                pdf_path@,
                optional_text(sphinx_port),
                optional_text(docs_uri),
                version@,
            ),
            Err(e) => !exists && e.variant == ErrorVariant::FailedFunction && e@.message == Some(
                absolute_path@ + " does not exist!"@,
            ),
        },
{
    if !exists {
        let mut message = String::from_str(absolute_path);
        message.append(" does not exist!");
        return Err(Error::new(ErrorVariant::FailedFunction, Some(message)));
    }
    let uri = match sphinx_port {
        Some(port) => {
            let mut uri = String::from_str("http://localhost:");
            uri.append(port);
            uri
        },
        None => {
            let mut uri = match docs_uri {
                Some(u) => String::from_str(u),
                None => String::from_str("https://docs.opendp.org"),
            };
            uri.append("/en/");
            if String::from_str(version) == String::from_str("0.0.0+development") {
                uri.append("latest");
            } else {
                uri.append(version);
            }
            uri
        },
    };
    let mut link = String::from_str("[(Proof Document)](");
    link.append(uri.as_str());
    link.append("/proofs/rust/src/");
    link.append(pdf_path);
    link.append(") ");
    assert(link@ =~= proof_link_text(pdf_path@, optional_text(sphinx_port), optional_text(docs_uri), version@));
    Ok(link)
}

} // verus!
