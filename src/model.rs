//! A model of what a run leaves in the target tree, and the laws that the
//! planned steps obey there.
use vstd::prelude::*;
use crate::gamedata::lookup;
use crate::layout::{
    entry_step, file_name, gamedata_target, message_bundle_suffix, message_target, step_target,
    under_message_root, xml_bundle_suffix, Step,
};
use crate::text::{ascii_lower, drop_last, has_suffix};

verus! {

/// What a path of the target tree holds.
pub enum Node {
    Dir,
    File(Seq<u8>),
}

/// What step `s` leaves at its target, where `content` is what its source
/// yields (the file's bytes, or the decoded payload).
pub open spec fn step_node(s: Step, content: Seq<u8>) -> Node {
    match s {
        Step::MakeDir(_) => Node::Dir,
        _ => Node::File(content),
    }
}

/// The tree `t` after the steps, carried out in order; `contents[i]` is what
/// the source of `steps[i]` yields.
pub open spec fn run_steps(
    t: Map<Seq<Seq<char>>, Node>,
    steps: Seq<Step>,
    contents: Seq<Seq<u8>>,
) -> Map<Seq<Seq<char>>, Node>
    decreases steps.len(),
{
    if steps.len() == 0 || contents.len() == 0 {
        t
    } else {
        run_steps(
            t.insert(step_target(steps[0]), step_node(steps[0], contents[0])),
            steps.drop_first(),
            contents.drop_first(),
        )
    }
}

/// No step after index `i` touches `p`.
pub open spec fn untouched_after(steps: Seq<Step>, i: int, p: Seq<Seq<char>>) -> bool {
    forall|j: int| i < j < steps.len() ==> step_target(#[trigger] steps[j]) != p
}

/// A path that no step touches keeps what it held.
pub proof fn lemma_untouched_path_kept(
    t: Map<Seq<Seq<char>>, Node>,
    steps: Seq<Step>,
    contents: Seq<Seq<u8>>,
    p: Seq<Seq<char>>,
)
    requires
        steps.len() == contents.len(),
        untouched_after(steps, -1, p),
    ensures
        run_steps(t, steps, contents).contains_key(p) == t.contains_key(p),
        t.contains_key(p) ==> run_steps(t, steps, contents)[p] == t[p],
    decreases steps.len(),
{
    if steps.len() > 0 {
        let t2 = t.insert(step_target(steps[0]), step_node(steps[0], contents[0]));
        assert(step_target(steps[0]) != p);
        assert(untouched_after(steps.drop_first(), -1, p)) by {
            assert forall|j: int| -1 < j < steps.drop_first().len() implies step_target(
                #[trigger] steps.drop_first()[j],
            ) != p by {
                assert(steps.drop_first()[j] == steps[j + 1]);
            }
        }
        lemma_untouched_path_kept(t2, steps.drop_first(), contents.drop_first(), p);
    }
}

/// Last write wins: after the run, the target of step `i` holds what step
/// `i` left there, when no later step touches that path. Two files that map
/// to one target therefore leave the one processed last.
pub proof fn lemma_last_write_wins(
    t: Map<Seq<Seq<char>>, Node>,
    steps: Seq<Step>,
    contents: Seq<Seq<u8>>,
    i: int,
)
    requires
        steps.len() == contents.len(),
        0 <= i < steps.len(),
        untouched_after(steps, i, step_target(steps[i])),
    ensures
        run_steps(t, steps, contents).contains_key(step_target(steps[i])),
        run_steps(t, steps, contents)[step_target(steps[i])] == step_node(steps[i], contents[i]),
    decreases steps.len(),
{
    let t2 = t.insert(step_target(steps[0]), step_node(steps[0], contents[0]));
    let rest = steps.drop_first();
    if i == 0 {
        assert(untouched_after(rest, -1, step_target(steps[0]))) by {
            assert forall|j: int| -1 < j < rest.len() implies step_target(#[trigger] rest[j])
                != step_target(steps[0]) by {
                assert(rest[j] == steps[j + 1]);
            }
        }
        lemma_untouched_path_kept(t2, rest, contents.drop_first(), step_target(steps[0]));
    } else {
        assert(rest[i - 1] == steps[i]);
        assert(untouched_after(rest, i - 1, step_target(steps[i]))) by {
            assert forall|j: int| i - 1 < j < rest.len() implies step_target(#[trigger] rest[j])
                != step_target(steps[i]) by {
                assert(rest[j] == steps[j + 1]);
            }
        }
        lemma_last_write_wins(t2, rest, contents.drop_first(), i - 1);
    }
}

/// A run is the old tree overridden by what the steps alone write.
proof fn lemma_run_overrides(
    t: Map<Seq<Seq<char>>, Node>,
    steps: Seq<Step>,
    contents: Seq<Seq<u8>>,
)
    requires
        steps.len() == contents.len(),
    ensures
        run_steps(t, steps, contents) == t.union_prefer_right(
            run_steps(Map::empty(), steps, contents),
        ),
    decreases steps.len(),
{
    if steps.len() == 0 {
        assert(t.union_prefer_right(Map::empty()) =~= t);
    } else {
        let k = step_target(steps[0]);
        let n = step_node(steps[0], contents[0]);
        let rest = steps.drop_first();
        let crest = contents.drop_first();
        lemma_run_overrides(t.insert(k, n), rest, crest);
        lemma_run_overrides(Map::empty().insert(k, n), rest, crest);
        let w = run_steps(Map::empty(), rest, crest);
        assert(t.insert(k, n).union_prefer_right(w) =~= t.union_prefer_right(
            Map::empty().insert(k, n).union_prefer_right(w),
        ));
    }
}

/// Running the same steps on the same sources a second time leaves the tree
/// exactly as the first run left it.
pub proof fn lemma_run_idempotent(
    t: Map<Seq<Seq<char>>, Node>,
    steps: Seq<Step>,
    contents: Seq<Seq<u8>>,
)
    requires
        steps.len() == contents.len(),
    ensures
        run_steps(run_steps(t, steps, contents), steps, contents) == run_steps(t, steps, contents),
{
    let w = run_steps(Map::empty(), steps, contents);
    lemma_run_overrides(t, steps, contents);
    lemma_run_overrides(run_steps(t, steps, contents), steps, contents);
    assert(t.union_prefer_right(w).union_prefer_right(w) =~= t.union_prefer_right(w));
}

/// No file name ends with both container suffixes.
pub proof fn lemma_suffixes_exclusive(name: Seq<char>)
    ensures
        !(has_suffix(name, message_bundle_suffix()) && has_suffix(name, xml_bundle_suffix())),
{
    reveal_strlit(".xml.bundle");
    reveal_strlit(".bytes.bundle");
    if has_suffix(name, message_bundle_suffix()) && has_suffix(name, xml_bundle_suffix()) {
        let n = name.len() as int;
        assert(name.subrange(n - 11, n)[0] == '.');
        assert(name.subrange(n - 13, n)[2] == 'y');
        assert(name[n - 11] == '.');
    }
}

/// Every directory of the source tree is made at the same relative path in
/// the target, and is a directory there after the run unless a later entry
/// is written to that very path.
pub proof fn lemma_directory_mirrored(
    t: Map<Seq<Seq<char>>, Node>,
    steps: Seq<Step>,
    contents: Seq<Seq<u8>>,
    i: int,
    rel: Seq<Seq<char>>,
    table: Seq<(Seq<char>, Seq<char>)>,
)
    requires
        steps.len() == contents.len(),
        0 <= i < steps.len(),
        entry_step(rel, true, table) == Some(steps[i]),
        untouched_after(steps, i, rel),
    ensures
        steps[i] == Step::MakeDir(rel),
        run_steps(t, steps, contents).contains_key(rel),
        run_steps(t, steps, contents)[rel] == Node::Dir,
{
    lemma_last_write_wins(t, steps, contents, i);
}

/// A file whose stem names a gamedata kind is written, as what its
/// container decodes to, to `patches/xml/<canonical name>.xml`; when several
/// files share a kind, the last one processed is what stays there.
pub proof fn lemma_gamedata_extracted(
    t: Map<Seq<Seq<char>>, Node>,
    steps: Seq<Step>,
    contents: Seq<Seq<u8>>,
    i: int,
    rel: Seq<Seq<char>>,
    table: Seq<(Seq<char>, Seq<char>)>,
    canonical: Seq<char>,
)
    requires
        steps.len() == contents.len(),
        0 <= i < steps.len(),
        entry_step(rel, false, table) == Some(steps[i]),
        has_suffix(file_name(rel), xml_bundle_suffix()),
        lookup(table, ascii_lower(drop_last(file_name(rel), xml_bundle_suffix().len())))
            == Some(canonical),
        untouched_after(steps, i, gamedata_target(canonical)),
    ensures
        steps[i] == Step::ExtractGamedata(gamedata_target(canonical)),
        run_steps(t, steps, contents).contains_key(gamedata_target(canonical)),
        run_steps(t, steps, contents)[gamedata_target(canonical)] == Node::File(contents[i]),
{
    lemma_last_write_wins(t, steps, contents, i);
}

/// A message bundle inside the locale message folder is written, as its
/// decoded script, to the same place below `patches/msbt/message` with a
/// `.txt` name.
pub proof fn lemma_message_extracted(
    t: Map<Seq<Seq<char>>, Node>,
    steps: Seq<Step>,
    contents: Seq<Seq<u8>>,
    i: int,
    rel: Seq<Seq<char>>,
    table: Seq<(Seq<char>, Seq<char>)>,
)
    requires
        steps.len() == contents.len(),
        0 <= i < steps.len(),
        entry_step(rel, false, table) == Some(steps[i]),
        has_suffix(file_name(rel), message_bundle_suffix()),
        under_message_root(rel),
        untouched_after(steps, i, message_target(rel)),
    ensures
        steps[i] == Step::ExtractMessage(message_target(rel)),
        run_steps(t, steps, contents).contains_key(message_target(rel)),
        run_steps(t, steps, contents)[message_target(rel)] == Node::File(contents[i]),
{
    lemma_suffixes_exclusive(file_name(rel));
    lemma_last_write_wins(t, steps, contents, i);
}

/// A message bundle outside the locale message folder cannot be placed:
/// the run is refused on it rather than passing over it.
pub proof fn lemma_misplaced_message_refused(
    rel: Seq<Seq<char>>,
    table: Seq<(Seq<char>, Seq<char>)>,
)
    requires
        has_suffix(file_name(rel), message_bundle_suffix()),
        !under_message_root(rel),
    ensures
        entry_step(rel, false, table) is None,
{
    lemma_suffixes_exclusive(file_name(rel));
}

/// Every other file is copied to the same relative path, and holds the
/// source's bytes there after the run unless a later entry overwrites it.
pub proof fn lemma_other_file_copied(
    t: Map<Seq<Seq<char>>, Node>,
    steps: Seq<Step>,
    contents: Seq<Seq<u8>>,
    i: int,
    rel: Seq<Seq<char>>,
    table: Seq<(Seq<char>, Seq<char>)>,
)
    requires
        steps.len() == contents.len(),
        0 <= i < steps.len(),
        entry_step(rel, false, table) == Some(steps[i]),
        !has_suffix(file_name(rel), message_bundle_suffix()),
        has_suffix(file_name(rel), xml_bundle_suffix()) ==> lookup(
            table,
            ascii_lower(drop_last(file_name(rel), xml_bundle_suffix().len())),
        ) is None,
        untouched_after(steps, i, rel),
    ensures
        steps[i] == Step::Copy(rel),
        run_steps(t, steps, contents).contains_key(rel),
        run_steps(t, steps, contents)[rel] == Node::File(contents[i]),
{
    lemma_last_write_wins(t, steps, contents, i);
}

/// A path component that names a child: not empty, not `.` or `..`, and
/// without a separator.
pub open spec fn plain_component(c: Seq<char>) -> bool {
    c.len() > 0 && c != "."@ && c != ".."@ && !c.contains('/')
}

/// A relative path that only descends.
pub open spec fn plain_path(p: Seq<Seq<char>>) -> bool {
    forall|k: int| 0 <= k < p.len() ==> plain_component(#[trigger] p[k])
}

/// A name of lower-case letters is a plain component.
proof fn lemma_literal_plain(c: Seq<char>)
    requires
        c.len() > 0,
        forall|k: int| 0 <= k < c.len() ==> 'a' <= #[trigger] c[k] <= 'z',
    ensures
        plain_component(c),
{
    reveal_strlit(".");
    reveal_strlit("..");
    assert(c[0] != '.');
    assert(c != "."@ && c != ".."@) by {
        assert("."@[0] == '.');
        assert(".."@[0] == '.');
    }
    if c.contains('/') {
        let k = choose|k: int| 0 <= k < c.len() && c[k] == '/';
        assert('a' <= c[k] <= 'z');
    }
}

/// `c` followed by a four-character extension is a plain component.
proof fn lemma_with_extension_plain(c: Seq<char>, ext: Seq<char>)
    requires
        !c.contains('/'),
        ext.len() == 4,
        !ext.contains('/'),
    ensures
        plain_component(c + ext),
{
    reveal_strlit(".");
    reveal_strlit("..");
    let r = c + ext;
    assert(r.len() >= 4);
    assert(r != "."@ && r != ".."@);
    if r.contains('/') {
        let k = choose|k: int| 0 <= k < r.len() && r[k] == '/';
        if k < c.len() {
            assert(c[k] == '/');
        } else {
            assert(ext[k - c.len()] == '/');
        }
    }
}

/// Nothing is ever written outside the target: for a source path that
/// only descends, and canonical names without a separator, the step's
/// target path only descends too.
pub proof fn lemma_targets_stay_inside(
    rel: Seq<Seq<char>>,
    is_dir: bool,
    table: Seq<(Seq<char>, Seq<char>)>,
)
    requires
        plain_path(rel),
        forall|k: int| 0 <= k < table.len() ==> !(#[trigger] table[k]).1.contains('/'),
    ensures
        entry_step(rel, is_dir, table) matches Some(s) ==> plain_path(step_target(s)),
{
    reveal_strlit("patches");
    reveal_strlit("xml");
    reveal_strlit("msbt");
    reveal_strlit("message");
    reveal_strlit(".");
    reveal_strlit("..");
    reveal_strlit(".xml");
    reveal_strlit(".txt");
    let name = file_name(rel);
    lemma_literal_plain("patches"@);
    lemma_literal_plain("xml"@);
    lemma_literal_plain("msbt"@);
    lemma_literal_plain("message"@);
    if !is_dir && has_suffix(name, xml_bundle_suffix()) {
        let folded = ascii_lower(drop_last(name, xml_bundle_suffix().len()));
        if let Some(canonical) = lookup(table, folded) {
            lemma_lookup_from_table(table, folded);
            lemma_with_extension_plain(canonical, ".xml"@);
            assert(plain_path(gamedata_target(canonical)));
        }
    } else if !is_dir && has_suffix(name, message_bundle_suffix()) && under_message_root(rel) {
        let stem = drop_last(name, message_bundle_suffix().len());
        assert(plain_component(rel[rel.len() - 1]));
        assert(!stem.contains('/')) by {
            if stem.contains('/') {
                let k = choose|k: int| 0 <= k < stem.len() && stem[k] == '/';
                assert(name[k] == '/');
            }
        }
        lemma_with_extension_plain(stem, ".txt"@);
        let t = message_target(rel);
        assert forall|k: int| 0 <= k < t.len() implies plain_component(#[trigger] t[k]) by {
            if 3 <= k < t.len() - 1 {
                assert(t[k] == rel[k - 3 + 5]);
            }
        }
    }
}

/// A canonical name found in the table is one of its entries' names.
proof fn lemma_lookup_from_table(table: Seq<(Seq<char>, Seq<char>)>, key: Seq<char>)
    ensures
        lookup(table, key) matches Some(c) ==> exists|k: int|
            0 <= k < table.len() && (#[trigger] table[k]).1 == c,
    decreases table.len(),
{
    if table.len() > 0 && table[0].0 != key {
        lemma_lookup_from_table(table.drop_first(), key);
        if let Some(c) = lookup(table, key) {
            let k = choose|k: int|
                0 <= k < table.drop_first().len() && (#[trigger] table.drop_first()[k]).1 == c;
            assert(table[k + 1] == table.drop_first()[k]);
        }
    } else if table.len() > 0 {
        assert(table[0].1 == lookup(table, key).unwrap());
    }
}

} // verus!
