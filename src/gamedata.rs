//! The gamedata classifier: a fixed table from lower-case logical names to
//! the canonical names of the patch files.
use vstd::prelude::*;
use crate::text::same_text;
use vstd::string::StringExecFns;

verus! {

/// The canonical name of the first entry of `entries` whose key is `key`.
pub open spec fn lookup(entries: Seq<(Seq<char>, Seq<char>)>, key: Seq<char>) -> Option<Seq<char>>
    decreases entries.len(),
{
    if entries.len() == 0 {
        None
    } else if entries[0].0 == key {
        Some(entries[0].1)
    } else {
        lookup(entries.drop_first(), key)
    }
}

/// The gamedata kinds that the Cobalt layout accepts as XML patches.
pub open spec fn standard_entries() -> Seq<(Seq<char>, Seq<char>)> {
    seq![
        ("person"@, "Person"@),
        ("skill"@, "Skill"@),
        ("shop"@, "Shop"@),
        ("item"@, "Item"@),
        ("god"@, "God"@),
        ("job"@, "Job"@),
        ("animset"@, "AnimSet"@),
        ("params"@, "Params"@),
        ("chapter"@, "Chapter"@),
        ("assettable"@, "AssetTable"@),
        ("animal"@, "Animal"@),
        ("calculator"@, "Calculator"@),
        ("cook"@, "Cook"@),
        ("achieve"@, "Achieve"@),
        ("reliance"@, "Reliance"@),
    ]
}

/// Read-only configuration: which gamedata kinds are extracted, and under
/// which canonical name.
pub struct GamedataTable {
    entries: Vec<(String, String)>,
}

impl View for GamedataTable {
    type V = Seq<(Seq<char>, Seq<char>)>;

    closed spec fn view(&self) -> Seq<(Seq<char>, Seq<char>)> {
        self.entries@.map_values(|e: (String, String)| (e.0@, e.1@))
    }
}

impl GamedataTable {
    /// A table holding exactly `entries`, looked up in order.
    pub fn new(entries: Vec<(String, String)>) -> (r: GamedataTable)
        ensures
            r@ == entries@.map_values(|e: (String, String)| (e.0@, e.1@)),
    {
        GamedataTable { entries }
    }

    /// The table of every gamedata kind that the Cobalt layout accepts.
    pub fn standard() -> (r: GamedataTable)
        ensures
            r@ == standard_entries(),
    {
        let mut entries: Vec<(String, String)> = Vec::new();
        entries.push((String::from_str("person"), String::from_str("Person")));
        entries.push((String::from_str("skill"), String::from_str("Skill")));
        entries.push((String::from_str("shop"), String::from_str("Shop")));
        entries.push((String::from_str("item"), String::from_str("Item")));
        entries.push((String::from_str("god"), String::from_str("God")));
        entries.push((String::from_str("job"), String::from_str("Job")));
        entries.push((String::from_str("animset"), String::from_str("AnimSet")));
        entries.push((String::from_str("params"), String::from_str("Params")));
        entries.push((String::from_str("chapter"), String::from_str("Chapter")));
        entries.push((String::from_str("assettable"), String::from_str("AssetTable")));
        entries.push((String::from_str("animal"), String::from_str("Animal")));
        entries.push((String::from_str("calculator"), String::from_str("Calculator")));
        entries.push((String::from_str("cook"), String::from_str("Cook")));
        entries.push((String::from_str("achieve"), String::from_str("Achieve")));
        entries.push((String::from_str("reliance"), String::from_str("Reliance")));
        let r = GamedataTable { entries };
        assert(r@ =~= standard_entries());
        r
    }

    /// The canonical name of `stem`, which the caller has already folded
    /// to lower case; `None` means the file is passed through unchanged.
    pub fn classify(&self, stem: &str) -> (r: Option<String>)
        ensures
            r is Some <==> lookup(self@, stem@) is Some,
            r matches Some(c) ==> lookup(self@, stem@) == Some(c@),
    {
        let n = self.entries.len();
        let mut i: usize = 0;
        assert(self@.subrange(0, n as int) == self@);
        while i < n
            invariant
                n == self.entries@.len(),
                i <= n,
                lookup(self@, stem@) == lookup(self@.subrange(i as int, n as int), stem@),
            decreases n - i,
        {
            let entry = &self.entries[i];
            assert(self@.subrange(i as int, n as int).drop_first()
                == self@.subrange(i + 1, n as int));
            if same_text(entry.0.as_str(), stem) {
                return Some(entry.1.clone());
            }
            i = i + 1;
        }
        None
    }
}

} // verus!
