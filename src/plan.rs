//! The orchestrator's decisions: from the walked source tree to the list of
//! actions of a run, and the failure policy for decoded containers.
use vstd::prelude::*;
use crate::error::MigrationError;
use crate::gamedata::GamedataTable;
use crate::layout::{entry_action, entry_step, path_view, Action, Step};
use vstd::string::StringExecFns;

verus! {

/// The components of `path` relative to `base`, as pathdiff computes them
/// from the two texts; `None` where no relative path exists.
pub uninterp spec fn relative_components(path: Seq<char>, base: Seq<char>) -> Option<
    Seq<Seq<char>>,
>;

/// Relies on pathdiff::diff_paths: the relative path from `base` to
/// `path`, which it computes from the two paths' text alone, without
/// touching the filesystem. Its components are handed back as text.
#[verifier::external_body]
fn diff_components(path: &str, base: &str) -> (r: Option<Vec<String>>)
    ensures
        r is Some <==> relative_components(path@, base@) is Some,
        r matches Some(v) ==> relative_components(path@, base@) == Some(path_view(v@)),
{
    let diff = pathdiff::diff_paths(std::path::Path::new(path), std::path::Path::new(base))?;
    diff.components().map(|c| c.as_os_str().to_str().map(|s| s.to_string())).collect()
}

/// One node met while walking the source tree.
pub struct SourceEntry {
    pub path: String,
    pub is_dir: bool,
}

/// The step for the walked node at `path` below the source root `root`.
pub open spec fn walked_step(
    path: Seq<char>,
    root: Seq<char>,
    is_dir: bool,
    table: Seq<(Seq<char>, Seq<char>)>,
) -> Option<Step> {
    match relative_components(path, root) {
        Some(rel) => entry_step(rel, is_dir, table),
        None => None,
    }
}

/// `e` is the error that the entry at `path` stops the run with.
pub open spec fn entry_error(
    e: MigrationError,
    path: Seq<char>,
    root: Seq<char>,
) -> bool {
    match relative_components(path, root) {
        None => e matches MigrationError::NotUnderRoot(p) && p@ == path,
        Some(rel) => e matches MigrationError::MessageOutsideLocale(p) && path_view(p@) == rel,
    }
}

/// The path of `path` relative to the source root `root`.
pub fn relative_entry_path(path: &str, root: &str) -> (r: Result<Vec<String>, MigrationError>)
    ensures
        r is Ok <==> relative_components(path@, root@) is Some,
        r matches Ok(v) ==> relative_components(path@, root@) == Some(path_view(v@)),
        r matches Err(e) ==> (e matches MigrationError::NotUnderRoot(p) && p@ == path@),
{
    match diff_components(path, root) {
        Some(v) => Ok(v),
        None => Err(MigrationError::NotUnderRoot(String::from_str(path))),
    }
}

/// The name of the Cobalt mod made from the mod folder `mod_name`.
pub fn target_name(mod_name: &str) -> (r: String)
    ensures
        r@ == mod_name@ + " (Cobalt)"@,
{
    String::from_str(mod_name).concat(" (Cobalt)")
}

/// The fixed folders of the target layout, relative to its root.
pub open spec fn required_layout() -> Seq<Seq<Seq<char>>> {
    seq![seq!["patches"@, "xml"@], seq!["patches"@, "msbt"@], seq!["Data"@]]
}

/// The folders that exist in the target before any entry is handled.
pub fn required_directories() -> (r: Vec<Vec<String>>)
    ensures
        r@.map_values(|p: Vec<String>| path_view(p@)) == required_layout(),
{
    let mut xml: Vec<String> = Vec::new();
    xml.push(String::from_str("patches"));
    xml.push(String::from_str("xml"));
    let mut msbt: Vec<String> = Vec::new();
    msbt.push(String::from_str("patches"));
    msbt.push(String::from_str("msbt"));
    let mut data: Vec<String> = Vec::new();
    data.push(String::from_str("Data"));
    let mut r: Vec<Vec<String>> = Vec::new();
    r.push(xml);
    r.push(msbt);
    r.push(data);
    assert(path_view(r@[0]@) =~= seq!["patches"@, "xml"@]);
    assert(path_view(r@[1]@) =~= seq!["patches"@, "msbt"@]);
    assert(path_view(r@[2]@) =~= seq!["Data"@]);
    assert(r@.map_values(|p: Vec<String>| path_view(p@)) =~= required_layout());
    r
}

/// What a run does: the target folder's name, the folders it needs first,
/// and one action per walked entry, in the order of the walk.
pub struct MigrationPlan {
    pub target: String,
    pub required: Vec<Vec<String>>,
    pub actions: Vec<Action>,
}

proof fn lemma_earlier_placed(
    entries: Seq<SourceEntry>,
    root: Seq<char>,
    table: Seq<(Seq<char>, Seq<char>)>,
    actions: Seq<Action>,
    i: int,
)
    requires
        0 <= i <= entries.len(),
        i <= actions.len(),
        forall|j: int|
            0 <= j < i ==> walked_step(entries[j].path@, root, entries[j].is_dir, table) == Some(
                #[trigger] actions[j]@,
            ),
    ensures
        forall|j: int|
            0 <= j < i ==> (#[trigger] walked_step(
                entries[j].path@,
                root,
                entries[j].is_dir,
                table,
            )) is Some,
{
    assert forall|j: int| 0 <= j < i implies (#[trigger] walked_step(
        entries[j].path@,
        root,
        entries[j].is_dir,
        table,
    )) is Some by {
        assert(walked_step(entries[j].path@, root, entries[j].is_dir, table) == Some(actions[j]@));
    }
}

/// The entry at index `i` is the first that cannot be placed, and `e` is
/// the error it stops the run with.
pub open spec fn stops_at(
    entries: Seq<SourceEntry>,
    root: Seq<char>,
    table: Seq<(Seq<char>, Seq<char>)>,
    e: MigrationError,
    i: int,
) -> bool {
    &&& 0 <= i < entries.len()
    &&& forall|j: int|
        0 <= j < i ==> (#[trigger] walked_step(
            entries[j].path@,
            root,
            entries[j].is_dir,
            table,
        )) is Some
    &&& walked_step(entries[i].path@, root, entries[i].is_dir, table) is None
    &&& entry_error(e, entries[i].path@, root)
}

/// Plans a whole run. `has_source_folder` tells whether the mod folder at
/// `mod_path` holds its `romfs` folder, `root` is that folder, and `entries`
/// are the nodes walked below it. The run is refused as a whole, before
/// anything is written, at the first entry that cannot be placed.
pub fn plan_migration(
    mod_path: &str,
    mod_name: &str,
    has_source_folder: bool,
    root: &str,
    entries: &Vec<SourceEntry>,
    table: &GamedataTable,
) -> (r: Result<MigrationPlan, MigrationError>)
    ensures
        r is Ok <==> has_source_folder && forall|i: int|
            0 <= i < entries@.len() ==> (#[trigger] walked_step(
                entries@[i].path@,
                root@,
                entries@[i].is_dir,
                table@,
            )) is Some,
        r matches Ok(plan) ==> {
            &&& plan.target@ == mod_name@ + " (Cobalt)"@
            &&& plan.required@.map_values(|p: Vec<String>| path_view(p@)) == required_layout()
            &&& plan.actions@.len() == entries@.len()
            &&& forall|i: int|
                0 <= i < entries@.len() ==> walked_step(
                    entries@[i].path@,
                    root@,
                    entries@[i].is_dir,
                    table@,
                ) == Some(#[trigger] plan.actions@[i]@)
        },
        r matches Err(e) ==> if !has_source_folder {
            e matches MigrationError::MissingSourceFolder(p) && p@ == mod_path@
        } else {
            exists|i: int| #[trigger] stops_at(entries@, root@, table@, e, i)
        },
{
    if !has_source_folder {
        return Err(MigrationError::MissingSourceFolder(String::from_str(mod_path)));
    }
    let mut actions: Vec<Action> = Vec::new();
    let mut i: usize = 0;
    while i < entries.len()
        invariant
            has_source_folder,
            i <= entries@.len(),
            actions@.len() == i,
            forall|j: int|
                0 <= j < i ==> walked_step(
                    entries@[j].path@,
                    root@,
                    entries@[j].is_dir,
                    table@,
                ) == Some(#[trigger] actions@[j]@),
        decreases entries@.len() - i,
    {
        let entry = &entries[i];
        let rel = match relative_entry_path(entry.path.as_str(), root) {
            Ok(rel) => rel,
            Err(e) => {
                proof {
                    lemma_earlier_placed(entries@, root@, table@, actions@, i as int);
                }
                assert(stops_at(entries@, root@, table@, e, i as int));
                return Err(e);
            },
        };
        match entry_action(&rel, entry.is_dir, table) {
            Ok(a) => {
                actions.push(a);
            },
            Err(e) => {
                proof {
                    lemma_earlier_placed(entries@, root@, table@, actions@, i as int);
                }
                assert(stops_at(entries@, root@, table@, e, i as int));
                return Err(e);
            },
        }
        i = i + 1;
    }
    proof {
        lemma_earlier_placed(entries@, root@, table@, actions@, i as int);
    }
    Ok(MigrationPlan {
        target: target_name(mod_name),
        required: required_directories(),
        actions,
    })
}

} // verus!
