//! The path remapper: where each source entry goes in the Cobalt layout.
use vstd::prelude::*;
use crate::error::MigrationError;
use crate::gamedata::{lookup, GamedataTable};
use crate::text::{ascii_lower, drop_last, has_suffix, same_text, strip_suffix_text, to_ascii_lower};
use vstd::string::StringExecFns;

verus! {

/// A path as its components.
pub open spec fn path_view(p: Seq<String>) -> Seq<Seq<char>> {
    p.map_values(|s: String| s@)
}

/// Suffix of a container whose payload is XML gamedata.
pub open spec fn xml_bundle_suffix() -> Seq<char> {
    ".xml.bundle"@
}

/// Suffix of a container whose payload is a message script.
pub open spec fn message_bundle_suffix() -> Seq<char> {
    ".bytes.bundle"@
}

/// The folder, relative to the source root, that holds the message
/// bundles, one folder per locale.
pub open spec fn message_root() -> Seq<Seq<char>> {
    seq!["Data"@, "StreamingAssets"@, "aa"@, "Switch"@, "fe_assets_message"@]
}

/// The last component of a path; empty for the empty path.
pub open spec fn file_name(rel: Seq<Seq<char>>) -> Seq<char> {
    if rel.len() > 0 {
        rel.last()
    } else {
        Seq::empty()
    }
}

/// What the run does with one entry, as paths relative to the target root.
pub enum Step {
    /// Create this directory (an existing one is kept).
    MakeDir(Seq<Seq<char>>),
    /// Decode the XML payload of the source file and write it here.
    ExtractGamedata(Seq<Seq<char>>),
    /// Decode the message script of the source file and write it here.
    ExtractMessage(Seq<Seq<char>>),
    /// Copy the source file here byte for byte.
    Copy(Seq<Seq<char>>),
}

/// The path that a step creates or writes.
pub open spec fn step_target(s: Step) -> Seq<Seq<char>> {
    match s {
        Step::MakeDir(p) => p,
        Step::ExtractGamedata(p) => p,
        Step::ExtractMessage(p) => p,
        Step::Copy(p) => p,
    }
}

/// Where a classified gamedata file of canonical name `canonical` goes.
pub open spec fn gamedata_target(canonical: Seq<char>) -> Seq<Seq<char>> {
    seq!["patches"@, "xml"@, canonical + ".xml"@]
}

/// Whether `rel` lies inside the locale message folder.
pub open spec fn under_message_root(rel: Seq<Seq<char>>) -> bool {
    rel.len() > message_root().len() && rel.subrange(0, message_root().len() as int)
        == message_root()
}

/// Where a message bundle at `rel` (inside the message folder) goes: the
/// same place below `patches/msbt/message`, with a `.txt` name.
pub open spec fn message_target(rel: Seq<Seq<char>>) -> Seq<Seq<char>> {
    seq!["patches"@, "msbt"@, "message"@] + rel.subrange(
        message_root().len() as int,
        rel.len() - 1,
    ) + seq![drop_last(file_name(rel), message_bundle_suffix().len()) + ".txt"@]
}

/// The step for the entry at `rel` (relative to the source root), or `None`
/// for a message bundle outside the message folder.
pub open spec fn entry_step(
    rel: Seq<Seq<char>>,
    is_dir: bool,
    table: Seq<(Seq<char>, Seq<char>)>,
) -> Option<Step> {
    let name = file_name(rel);
    if is_dir {
        Some(Step::MakeDir(rel))
    } else if has_suffix(name, xml_bundle_suffix()) {
        match lookup(table, ascii_lower(drop_last(name, xml_bundle_suffix().len()))) {
            Some(canonical) => Some(Step::ExtractGamedata(gamedata_target(canonical))),
            None => Some(Step::Copy(rel)),
        }
    } else if has_suffix(name, message_bundle_suffix()) {
        if under_message_root(rel) {
            Some(Step::ExtractMessage(message_target(rel)))
        } else {
            None
        }
    } else {
        Some(Step::Copy(rel))
    }
}

/// What the run does with one entry; every path is relative to the target
/// root, one component per item.
pub enum Action {
    /// Create this directory; an existing one is kept.
    MakeDir(Vec<String>),
    /// Write the decoded XML payload of the source file here.
    ExtractGamedata(Vec<String>),
    /// Write the decoded message script of the source file here.
    ExtractMessage(Vec<String>),
    /// Copy the source file here byte for byte.
    Copy(Vec<String>),
}

impl View for Action {
    type V = Step;

    open spec fn view(&self) -> Step {
        match self {
            Action::MakeDir(p) => Step::MakeDir(path_view(p@)),
            Action::ExtractGamedata(p) => Step::ExtractGamedata(path_view(p@)),
            Action::ExtractMessage(p) => Step::ExtractMessage(path_view(p@)),
            Action::Copy(p) => Step::Copy(path_view(p@)),
        }
    }
}

/// A copy of a path.
pub fn copy_path(p: &Vec<String>) -> (r: Vec<String>)
    ensures
        path_view(r@) == path_view(p@),
{
    let mut r: Vec<String> = Vec::new();
    let mut i: usize = 0;
    while i < p.len()
        invariant
            i <= p@.len(),
            path_view(r@) == path_view(p@).subrange(0, i as int),
        decreases p@.len() - i,
    {
        let c = p[i].clone();
        assert(c@ == p@[i as int]@);
        let ghost before = r@;
        r.push(c);
        assert(path_view(r@) =~= path_view(before).push(c@));
        assert(path_view(r@) =~= path_view(p@).subrange(0, i + 1));
        i = i + 1;
    }
    assert(path_view(p@).subrange(0, i as int) =~= path_view(p@));
    r
}

/// Whether `rel` lies inside the locale message folder.
fn is_under_message_root(rel: &Vec<String>) -> (r: bool)
    ensures
        r == under_message_root(path_view(rel@)),
{
    if rel.len() <= 5 {
        return false;
    }
    let r = same_text(rel[0].as_str(), "Data") && same_text(rel[1].as_str(), "StreamingAssets")
        && same_text(rel[2].as_str(), "aa") && same_text(rel[3].as_str(), "Switch")
        && same_text(rel[4].as_str(), "fe_assets_message");
    let ghost head = path_view(rel@).subrange(0, 5);
    assert(r ==> head =~= message_root());
    assert(head == message_root() ==> head[0] == "Data"@ && head[1] == "StreamingAssets"@
        && head[2] == "aa"@ && head[3] == "Switch"@ && head[4] == "fe_assets_message"@);
    r
}

/// The destination of the entry at `rel`, relative to the source root.
pub fn entry_action(rel: &Vec<String>, is_dir: bool, table: &GamedataTable) -> (r: Result<
    Action,
    MigrationError,
>)
    ensures
        r is Ok <==> entry_step(path_view(rel@), is_dir, table@) is Some,
        r matches Ok(a) ==> entry_step(path_view(rel@), is_dir, table@) == Some(a@),
        r matches Err(e) ==> (e matches MigrationError::MessageOutsideLocale(p) && path_view(p@)
            == path_view(rel@)),
{
    let ghost relv = path_view(rel@);
    if is_dir {
        return Ok(Action::MakeDir(copy_path(rel)));
    }
    let n = rel.len();
    let name: &str = if n > 0 {
        rel[n - 1].as_str()
    } else {
        ""
    };
    assert(name@ == file_name(relv)) by {
        if n == 0 {
            reveal_strlit("");
            assert(name@ =~= Seq::<char>::empty());
        }
    }
    if let Some(stem) = strip_suffix_text(name, ".xml.bundle") {
        let folded = to_ascii_lower(stem);
        match table.classify(folded.as_str()) {
            Some(canonical) => {
                let mut dest: Vec<String> = Vec::new();
                dest.push(String::from_str("patches"));
                dest.push(String::from_str("xml"));
                dest.push(canonical.concat(".xml"));
                assert(path_view(dest@) =~= gamedata_target(
                    lookup(table@, ascii_lower(drop_last(name@, xml_bundle_suffix().len()))).unwrap(),
                ));
                Ok(Action::ExtractGamedata(dest))
            },
            None => Ok(Action::Copy(copy_path(rel))),
        }
    } else if let Some(stem) = strip_suffix_text(name, ".bytes.bundle") {
        if !is_under_message_root(rel) {
            return Err(MigrationError::MessageOutsideLocale(copy_path(rel)));
        }
        let mut dest: Vec<String> = Vec::new();
        dest.push(String::from_str("patches"));
        dest.push(String::from_str("msbt"));
        dest.push(String::from_str("message"));
        let mut i: usize = 5;
        while i < n - 1
            invariant
                n == rel@.len(),
                n > 5,
                5 <= i <= n - 1,
                path_view(dest@) == seq!["patches"@, "msbt"@, "message"@] + relv.subrange(
                    5,
                    i as int,
                ),
                relv == path_view(rel@),
            decreases n - 1 - i,
        {
            let c = rel[i].clone();
            assert(c@ == relv[i as int]);
            let ghost before = dest@;
            dest.push(c);
            assert(path_view(dest@) =~= path_view(before).push(c@));
            assert(path_view(dest@) =~= seq!["patches"@, "msbt"@, "message"@] + relv.subrange(
                5,
                i + 1,
            ));
            i = i + 1;
        }
        let stem_text = String::from_str(stem);
        dest.push(stem_text.concat(".txt"));
        assert(path_view(dest@) =~= message_target(relv));
        Ok(Action::ExtractMessage(dest))
    } else {
        Ok(Action::Copy(copy_path(rel)))
    }
}

} // verus!
