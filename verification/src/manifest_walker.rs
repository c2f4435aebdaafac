//! Parsing of Manifest files from a package tree.
//!
//! A Manifest line is split into whitespace-delimited tokens; a `DIST`
//! keyword takes the following two tokens as filename and size, `BLAKE2B`
//! and `SHA512` take the following token as a checksum, and other tokens
//! are skipped.  Filename and size are mandatory, the checksums optional.
//! Walking the tree and reading the files is I/O and happens outside the
//! library; the lines of each Manifest arrive here as plain values.

use vstd::prelude::*;

use crate::strutil::chars_eq_str;
use crate::strutil::concat_str;
use crate::strutil::from_char_vec;
use crate::strutil::parse_u32_chars;
use crate::strutil::spec_parse_u32;
use crate::strutil::spec_tokens;
use crate::strutil::split_whitespace_chars;
use crate::strutil::to_char_vec;

verus! {

/// One parsed Manifest line: a distfile with its size and optional
/// checksums, together with the Manifest file it came from.
pub struct ManifestEntry {
    /// origin Manifest file
    pub origin: String,
    /// file name
    pub file: String,
    /// file size in bytes
    pub size: u32,
    /// blake2b checksum
    pub blake2b: Option<String>,
    /// sha512 checksum
    pub sha512: Option<String>,
}

/// The view of an optional string.
pub open spec fn opt_view(o: Option<String>) -> Option<Seq<char>> {
    match o {
        Option::None => None,
        Option::Some(s) => Some(s@),
    }
}

/// What a scan of a Manifest line has gathered so far.
pub struct ScanState {
    pub file: Option<Seq<char>>,
    pub size: Option<u32>,
    pub blake2b: Option<Seq<char>>,
    pub sha512: Option<Seq<char>>,
}

/// The scan state before any token is read.
pub open spec fn init_scan() -> ScanState {
    ScanState { file: None, size: None, blake2b: None, sha512: None }
}

/// The scan of a token sequence: keywords take their arguments from the
/// following tokens, whatever those are; a keyword whose arguments are
/// missing, or a size that is not a decimal number, fails the line.
pub open spec fn spec_scan(toks: Seq<Seq<char>>, st: ScanState) -> Option<ScanState>
    decreases toks.len(),
{
    if toks.len() == 0 {
        Some(st)
    } else if toks[0] == "DIST"@ {
        if toks.len() < 3 {
            None
        } else {
            match spec_parse_u32(toks[2]) {
                Option::None => None,
                Option::Some(sz) => spec_scan(
                    toks.skip(3),
                    ScanState {
                        file: Some(toks[1]),
                        size: Some(sz),
                        blake2b: st.blake2b,
                        sha512: st.sha512,
                    },
                ),
            }
        }
    } else if toks[0] == "BLAKE2B"@ {
        if toks.len() < 2 {
            None
        } else {
            spec_scan(
                toks.skip(2),
                ScanState { file: st.file, size: st.size, blake2b: Some(toks[1]), sha512: st.sha512 },
            )
        }
    } else if toks[0] == "SHA512"@ {
        if toks.len() < 2 {
            None
        } else {
            spec_scan(
                toks.skip(2),
                ScanState { file: st.file, size: st.size, blake2b: st.blake2b, sha512: Some(toks[1]) },
            )
        }
    } else {
        spec_scan(toks.skip(1), st)
    }
}

/// What a well-formed Manifest line denotes: filename, size, and the
/// optional checksums.  A line without both a filename and a size, or
/// with a keyword missing its argument, denotes nothing.
pub open spec fn spec_parse_line(line: Seq<char>) -> Option<
    (Seq<char>, u32, Option<Seq<char>>, Option<Seq<char>>),
> {
    match spec_scan(spec_tokens(line), init_scan()) {
        Option::None => None,
        Option::Some(st) => match (st.file, st.size) {
            (Option::Some(f), Option::Some(sz)) => Some((f, sz, st.blake2b, st.sha512)),
            _ => None,
        },
    }
}

impl ManifestEntry {
    /// Parses one Manifest line.  Returns the entry exactly when the line
    /// denotes one; a line missing its filename or size, or with a
    /// keyword missing its argument, is an error.
    pub fn parse(origin: &str, line: &str) -> (r: Result<ManifestEntry, String>)
        ensures
            r is Ok <==> spec_parse_line(line@) is Some,
            r matches Ok(e) ==> {
                &&& spec_parse_line(line@) matches Some(t)
                &&& e.origin@ == origin@
                &&& e.file@ == t.0
                &&& e.size == t.1
                &&& opt_view(e.blake2b) == t.2
                &&& opt_view(e.sha512) == t.3
            },
    {
        let chars = to_char_vec(line);
        let toks = split_whitespace_chars(&chars);
        let ghost tview = toks@.map_values(|t: Vec<char>| t@);
        let mut file: Option<String> = None;
        let mut size: Option<u32> = None;
        let mut blake2b: Option<String> = None;
        let mut sha512: Option<String> = None;
        let mut i: usize = 0;
        proof {
            assert(tview.skip(0) =~= tview);
        }
        while i < toks.len()
            invariant
                toks@.map_values(|t: Vec<char>| t@) == tview,
                tview == spec_tokens(line@),
                toks@.len() == tview.len(),
                i <= tview.len(),
                spec_scan(tview, init_scan()) == spec_scan(
                    tview.skip(i as int),
                    (ScanState {
                        file: opt_view(file),
                        size,
                        blake2b: opt_view(blake2b),
                        sha512: opt_view(sha512),
                    }),
                ),
            decreases tview.len() - i,
        {
            proof {
                assert(tview.skip(i as int)[0] == tview[i as int]);
                assert(tview[i as int] == toks@[i as int]@);
            }
            if chars_eq_str(&toks[i], "DIST") {
                if toks.len() - i < 3 {
                    return Err("missing file name or size after DIST".to_owned());
                }
                proof {
                    assert(tview.skip(i as int)[1] == tview[i + 1]);
                    assert(tview.skip(i as int)[2] == tview[i + 2]);
                    assert(tview.skip(i as int).skip(3) =~= tview.skip(i + 3));
                }
                match parse_u32_chars(&toks[i + 2]) {
                    Some(sz) => {
                        file = Some(from_char_vec(&toks[i + 1]));
                        size = Some(sz);
                        i = i + 3;
                    },
                    None => {
                        return Err("file size after DIST is not a number".to_owned());
                    },
                }
            } else if chars_eq_str(&toks[i], "BLAKE2B") {
                if toks.len() - i < 2 {
                    return Err("missing checksum after BLAKE2B".to_owned());
                }
                proof {
                    assert(tview.skip(i as int)[1] == tview[i + 1]);
                    assert(tview.skip(i as int).skip(2) =~= tview.skip(i + 2));
                }
                blake2b = Some(from_char_vec(&toks[i + 1]));
                i = i + 2;
            } else if chars_eq_str(&toks[i], "SHA512") {
                if toks.len() - i < 2 {
                    return Err("missing checksum after SHA512".to_owned());
                }
                proof {
                    assert(tview.skip(i as int)[1] == tview[i + 1]);
                    assert(tview.skip(i as int).skip(2) =~= tview.skip(i + 2));
                }
                sha512 = Some(from_char_vec(&toks[i + 1]));
                i = i + 2;
            } else {
                proof {
                    assert(tview.skip(i as int).skip(1) =~= tview.skip(i + 1));
                }
                i = i + 1;
            }
        }
        proof {
            assert(tview.skip(i as int) =~= Seq::<Seq<char>>::empty());
        }
        let f = match file {
            Some(f) => f,
            None => {
                return Err("line does not contain a file name".to_owned());
            },
        };
        let sz = match size {
            Some(sz) => sz,
            None => {
                return Err("line does not contain a file size".to_owned());
            },
        };
        Ok(ManifestEntry { origin: origin.to_owned(), file: f, size: sz, blake2b, sha512 })
    }
}

/// The view of a Manifest entry.
pub struct SpecEntry {
    pub origin: Seq<char>,
    pub file: Seq<char>,
    pub size: u32,
    pub blake2b: Option<Seq<char>>,
    pub sha512: Option<Seq<char>>,
}

/// The view of a Manifest entry.
pub open spec fn entry_view(e: ManifestEntry) -> SpecEntry {
    SpecEntry {
        origin: e.origin@,
        file: e.file@,
        size: e.size,
        blake2b: opt_view(e.blake2b),
        sha512: opt_view(e.sha512),
    }
}

/// The entries denoted by the lines of one Manifest file: the well-formed
/// lines in order, each with the file's path as origin; lines that denote
/// nothing are skipped and parsing continues.
pub open spec fn spec_file_entries(origin: Seq<char>, lines: Seq<String>) -> Seq<SpecEntry>
    decreases lines.len(),
{
    if lines.len() == 0 {
        Seq::empty()
    } else {
        spec_file_entries(origin, lines.drop_last()) + match spec_parse_line(lines.last()@) {
            Option::None => Seq::empty(),
            Option::Some(t) => seq![
                SpecEntry {
                    origin: origin,
                    file: t.0,
                    size: t.1,
                    blake2b: t.2,
                    sha512: t.3,
                },
            ],
        }
    }
}

/// The entries of a walked tree: each Manifest file's entries, in file
/// order.
pub open spec fn spec_walk_entries(files: Seq<(String, Vec<String>)>) -> Seq<SpecEntry>
    decreases files.len(),
{
    if files.len() == 0 {
        Seq::empty()
    } else {
        spec_walk_entries(files.drop_last()) + spec_file_entries(
            files.last().0@,
            files.last().1@,
        )
    }
}

/// Walks the Manifest files of one package-tree checkout.
pub struct ManifestWalker {
    /// ebuild tree root
    pub root: String,
}

/// The path of the layout description a valid tree must carry.
pub fn tree_layout_conf_path(root: &str) -> (r: String)
    ensures
        r@ == root@ + "/metadata/layout.conf"@,
{
    concat_str(root, "/metadata/layout.conf")
}

/// Whether a walked directory entry is a Manifest candidate: Manifest
/// files sit exactly three levels below the tree root (category, package,
/// file) under the name Manifest.
pub fn is_manifest_candidate(depth: usize, file_name: &str) -> (r: bool)
    ensures
        r == (depth == 3 && file_name@ == "Manifest"@),
{
    depth == 3 && crate::strutil::str_eq(file_name, "Manifest")
}

impl ManifestWalker {
    /// Builds a walker over a tree root.  A valid tree carries a layout
    /// description at metadata/layout.conf; whether that file exists on
    /// disk is checked by the caller and handed in.
    pub fn new(root: String, layout_conf_is_file: bool) -> (r: Result<ManifestWalker, String>)
        ensures
            r is Ok <==> layout_conf_is_file,
            r matches Ok(w) ==> w.root == root,
    {
        if !layout_conf_is_file {
            return Err(
                "Could not find metadata/layout.conf in repo root - this doesn't look like a valid repo".to_owned(),
            );
        }
        Ok(ManifestWalker { root })
    }

    /// The entries of the walked Manifest files: every well-formed line
    /// of every file, in order; a line that fails to parse is skipped and
    /// the rest of its file is still read.
    pub fn entries(&self, files: &Vec<(String, Vec<String>)>) -> (r: Vec<ManifestEntry>)
        ensures
            r@.map_values(|e: ManifestEntry| entry_view(e)) == spec_walk_entries(files@),
    {
        let mut out: Vec<ManifestEntry> = Vec::new();
        let mut i: usize = 0;
        proof {
            assert(files@.take(0) =~= Seq::<(String, Vec<String>)>::empty());
            assert(out@.map_values(|e: ManifestEntry| entry_view(e)) =~= spec_walk_entries(
                files@.take(0),
            ));
        }
        while i < files.len()
            invariant
                i <= files@.len(),
                out@.map_values(|e: ManifestEntry| entry_view(e)) == spec_walk_entries(
                    files@.take(i as int),
                ),
            decreases files@.len() - i,
        {
            let origin = &files[i].0;
            let lines = &files[i].1;
            let mut j: usize = 0;
            proof {
                assert(lines@.take(0) =~= Seq::<String>::empty());
                assert(spec_file_entries(origin@, lines@.take(0)) =~= Seq::<SpecEntry>::empty());
            }
            while j < lines.len()
                invariant
                    i < files@.len(),
                    j <= lines@.len(),
                    origin == &files@[i as int].0,
                    lines == &files@[i as int].1,
                    out@.map_values(|e: ManifestEntry| entry_view(e)) == spec_walk_entries(
                        files@.take(i as int),
                    ) + spec_file_entries(origin@, lines@.take(j as int)),
                decreases lines@.len() - j,
            {
                let ghost out0 = out@;
                proof {
                    assert(lines@.take(j + 1).drop_last() =~= lines@.take(j as int));
                    assert(lines@.take(j + 1).last() == lines@[j as int]);
                }
                match ManifestEntry::parse(origin.as_str(), lines[j].as_str()) {
                    Ok(e) => {
                        out.push(e);
                        proof {
                            assert(out@.map_values(|e: ManifestEntry| entry_view(e))
                                =~= out0.map_values(|e: ManifestEntry| entry_view(e)).push(
                                entry_view(out@.last()),
                            ));
                            assert(out@.map_values(|e: ManifestEntry| entry_view(e))
                                =~= spec_walk_entries(files@.take(i as int)) + spec_file_entries(
                                origin@,
                                lines@.take(j + 1),
                            ));
                        }
                    },
                    Err(_) => {
                        proof {
                            assert(spec_file_entries(origin@, lines@.take(j + 1))
                                =~= spec_file_entries(origin@, lines@.take(j as int)));
                        }
                    },
                }
                j = j + 1;
            }
            proof {
                assert(lines@.take(lines@.len() as int) =~= lines@);
                assert(files@.take(i + 1).drop_last() =~= files@.take(i as int));
                assert(files@.take(i + 1).last() == files@[i as int]);
            }
            i = i + 1;
        }
        proof {
            assert(files@.take(files@.len() as int) =~= files@);
        }
        out
    }
}

} // verus!
