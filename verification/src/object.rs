//! Object operations: planning uploads of files and directory trees,
//! filtering object listings by key prefix, computing local download paths,
//! and rendering object listings for display.

use vstd::prelude::*;

use vstd::arithmetic::div_mod::{
    lemma_div_denominator, lemma_fundamental_div_mod, lemma_multiply_divide_lt,
};
use vstd::arithmetic::mul::lemma_mul_inequality;

use crate::text::{spec_dec_str, spec_digit_char, u64_to_dec};

verus! {

/// `1024^i`.
pub open spec fn pow1024(i: nat) -> nat
    decreases i,
{
    if i == 0 {
        1
    } else {
        1024 * pow1024((i - 1) as nat)
    }
}

/// How many times `n` can be divided by 1024 before it falls under 1024:
/// the index of the unit that `n` bytes are displayed in.
pub open spec fn spec_unit_index(n: nat) -> nat
    decreases n,
{
    if n < 1024 {
        0
    } else {
        1 + spec_unit_index(n / 1024)
    }
}

/// The display name of the unit at the given index, on a base-1024 scale.
pub open spec fn spec_unit_name(i: nat) -> Seq<char> {
    if i == 0 {
        "B"@
    } else if i == 1 {
        "KB"@
    } else if i == 2 {
        "MB"@
    } else if i == 3 {
        "GB"@
    } else if i == 4 {
        "TB"@
    } else if i == 5 {
        "PB"@
    } else if i == 6 {
        "EB"@
    } else if i == 7 {
        "ZB"@
    } else {
        "YB"@
    }
}

/// A byte count rendered for people: the count scaled into the largest
/// base-1024 unit that keeps the whole part under 1024, with two decimal
/// places rounded to nearest (a half rounds up), and the unit's name. A
/// fraction that rounds all the way up carries into the whole part, so just
/// under 1024 whole units shows as `1024.00` of the same unit.
pub open spec fn spec_format_size(bytes: u64) -> Seq<char> {
    let i = spec_unit_index(bytes as nat);
    let unit = pow1024(i) as int;
    let fh = ((bytes as int % unit) * 200 + unit) / (2 * unit);
    let whole = if fh == 100 {
        bytes as int / unit + 1
    } else {
        bytes as int / unit
    };
    let frac = if fh == 100 {
        0int
    } else {
        fh
    };
    spec_dec_str(whole as nat) + seq!['.'] + seq![
        spec_digit_char((frac / 10) as nat),
        spec_digit_char((frac % 10) as nat),
    ] + seq![' '] + spec_unit_name(i)
}

fn unit_str(idx: usize) -> (r: &'static str)
    ensures
        r@ == spec_unit_name(idx as nat),
{
    proof {
        reveal_strlit("B");
        reveal_strlit("KB");
        reveal_strlit("MB");
        reveal_strlit("GB");
        reveal_strlit("TB");
        reveal_strlit("PB");
        reveal_strlit("EB");
        reveal_strlit("ZB");
        reveal_strlit("YB");
    }
    match idx {
        0 => "B",
        1 => "KB",
        2 => "MB",
        3 => "GB",
        4 => "TB",
        5 => "PB",
        6 => "EB",
        7 => "ZB",
        _ => "YB",
    }
}

/// Render a byte count in a human-readable base-1024 unit with two decimals.
pub fn format_size(bytes: u64) -> (r: String)
    ensures
        r@ == spec_format_size(bytes),
{
    let mut unit: u64 = 1;
    let mut idx: usize = 0;
    let mut cur: u64 = bytes;
    proof {
        assert(pow1024(0) == 1);
    }
    while cur >= 1024
        invariant
            unit == pow1024(idx as nat),
            unit >= 1,
            cur == bytes as int / unit as int,
            spec_unit_index(bytes as nat) == idx + spec_unit_index(cur as nat),
            idx <= 6,
        decreases cur,
    {
        proof {
            // bytes >= unit * cur >= unit * 1024, so the new unit fits in u64.
            lemma_fundamental_div_mod(bytes as int, unit as int);
            lemma_mul_inequality(1024, cur as int, unit as int);
            assert(bytes as int >= 1024 * (unit as int));
            lemma_div_denominator(bytes as int, unit as int, 1024);
            assert(spec_unit_index(cur as nat) == 1 + spec_unit_index((cur as int / 1024) as nat));
            assert(pow1024((idx + 1) as nat) == 1024 * pow1024(idx as nat));
            // idx stays small: at index 6 the unit alone is 2^60, and 1024 of
            // those exceed any u64 byte count.
            if idx == 6 {
                lemma_pow1024_6();
                assert(false);
            }
        }
        cur = cur / 1024;
        unit = unit * 1024;
        idx = idx + 1;
    }
    let rem: u64 = bytes % unit;
    proof {
        assert(rem < unit);
        // rem * 200 + unit < 202 * unit, so the rounded hundredths reach 100
        // at most.
        lemma_mul_inequality(rem as int, (unit as int) - 1, 200);
        lemma_multiply_divide_lt((rem as int) * 200 + (unit as int), 2 * (unit as int), 101);
        assert(((rem as int) * 200 + (unit as int)) / (2 * (unit as int)) < 101);
    }
    let fh: u64 = (((rem as u128) * 200 + (unit as u128)) / (2 * (unit as u128))) as u64;
    proof {
        assert(fh == (((bytes as int) % (unit as int)) * 200 + (unit as int)) / (2 * (unit
            as int)));
        assert(fh <= 100);
    }
    let whole: u64 = if fh == 100 {
        cur + 1
    } else {
        cur
    };
    let frac: u64 = if fh == 100 {
        0
    } else {
        fh
    };
    let mut out = u64_to_dec(whole);
    let d1 = u64_to_dec(frac / 10);
    let d2 = u64_to_dec(frac % 10);
    out.append(".");
    out.append(d1.as_str());
    out.append(d2.as_str());
    out.append(" ");
    out.append(unit_str(idx));
    proof {
        reveal_strlit(".");
        reveal_strlit(" ");
        assert(out@ =~= spec_format_size(bytes));
    }
    out
}

proof fn lemma_pow1024_6()
    ensures
        pow1024(6) == 0x1000000000000000,
{
    assert(pow1024(0) == 1);
    assert(pow1024(1) == 1024);
    assert(pow1024(2) == 1048576);
    assert(pow1024(3) == 1073741824);
    assert(pow1024(4) == 1099511627776);
    assert(pow1024(5) == 1125899906842624);
    assert(pow1024(6) == 1152921504606846976);
}

} // verus!

verus! {

/// The content type that the name of a file maps to. The mapping is a fixed
/// table lookup on the name's extension; only its existence matters here.
pub uninterp spec fn mime_of(name: Seq<char>) -> Seq<char>;

/// Relies on `mime_guess::from_path` and the text form of `mime::Mime`: the
/// guess looks the name's extension up in a fixed table and falls back to
/// `application/octet-stream`, so the result is a function of the name alone.
#[verifier::external_body]
fn content_type_of(name: &str) -> (r: String)
    ensures
        r@ == mime_of(name@),
{
    mime_guess::from_path(name).first_or_octet_stream().to_string()
}

/// A local file or directory handed to the upload planner.
pub enum FsEntry {
    File { name: String },
    Dir { name: String, entries: Vec<FsEntry> },
}

/// The mathematical shape of a local file tree.
pub enum FsTree {
    File { name: Seq<char> },
    Dir { name: Seq<char>, entries: Seq<FsTree> },
}

/// The tree that an entry stands for.
pub open spec fn view_of_entry(e: FsEntry) -> FsTree
    decreases e, 0nat,
{
    match e {
        FsEntry::File { name } => FsTree::File { name: name@ },
        FsEntry::Dir { name, entries } => FsTree::Dir {
            name: name@,
            entries: views_of_entries(entries@),
        },
    }
}

/// The trees that a list of entries stands for, in order.
pub open spec fn views_of_entries(es: Seq<FsEntry>) -> Seq<FsTree>
    decreases es, 1nat,
{
    if es.len() == 0 {
        Seq::empty()
    } else {
        seq![view_of_entry(es[0])] + views_of_entries(es.drop_first())
    }
}

impl View for FsEntry {
    type V = FsTree;

    open spec fn view(&self) -> FsTree {
        view_of_entry(*self)
    }
}

pub proof fn lemma_views_of_entries(es: Seq<FsEntry>)
    ensures
        views_of_entries(es).len() == es.len(),
        forall|i: int| 0 <= i < es.len() ==> views_of_entries(es)[i] == view_of_entry(es[i]),
    decreases es.len(),
{
    if es.len() > 0 {
        lemma_views_of_entries(es.drop_first());
    }
}

/// One upload that a walk of a local tree calls for.
pub struct PlanItem {
    /// The file's path relative to the walk's root, `/`-separated.
    pub rel_path: String,
    /// The destination object key.
    pub key: String,
    /// The content type guessed from the file's name.
    pub content_type: String,
}

/// The mathematical shape of a planned upload.
pub struct PlanItemView {
    pub rel_path: Seq<char>,
    pub key: Seq<char>,
    pub content_type: Seq<char>,
}

impl View for PlanItem {
    type V = PlanItemView;

    open spec fn view(&self) -> PlanItemView {
        PlanItemView {
            rel_path: self.rel_path@,
            key: self.key@,
            content_type: self.content_type@,
        }
    }
}

pub open spec fn views_of_items(items: Seq<PlanItem>) -> Seq<PlanItemView> {
    items.map_values(|it: PlanItem| it@)
}

/// The uploads for one entry met while walking a directory: a file is sent
/// under the prefix gathered so far plus its own name, and a directory's
/// children are planned with the prefix and relative path extended by the
/// directory's name and a separator.
pub open spec fn spec_plan_entry(prefix: Seq<char>, rel: Seq<char>, t: FsTree) -> Seq<
    PlanItemView,
>
    decreases t, 0nat,
{
    match t {
        FsTree::File { name } => seq![
            PlanItemView { rel_path: rel + name, key: prefix + name, content_type: mime_of(name) },
        ],
        FsTree::Dir { name, entries } => spec_plan_entries(
            prefix + name + "/"@,
            rel + name + "/"@,
            entries,
        ),
    }
}

/// The uploads for the entries of one directory, in order.
pub open spec fn spec_plan_entries(
    prefix: Seq<char>,
    rel: Seq<char>,
    ts: Seq<FsTree>,
) -> Seq<PlanItemView>
    decreases ts, 1nat,
{
    if ts.len() == 0 {
        Seq::empty()
    } else {
        spec_plan_entry(prefix, rel, ts[0]) + spec_plan_entries(prefix, rel, ts.drop_first())
    }
}

/// The uploads that sending `t` with destination key prefix `prefix`
/// performs. A single file keeps the prefix plus its own name as its key. A
/// directory yields one upload per file anywhere under it, each nested
/// directory on the way appending its name and `/` to the key; the root
/// directory's own name is not part of any key.
pub open spec fn spec_upload_plan(prefix: Seq<char>, t: FsTree) -> Seq<PlanItemView> {
    match t {
        FsTree::File { name } => seq![
            PlanItemView { rel_path: name, key: prefix + name, content_type: mime_of(name) },
        ],
        FsTree::Dir { name, entries } => spec_plan_entries(prefix, Seq::empty(), entries),
    }
}

proof fn lemma_plan_entries_push(prefix: Seq<char>, rel: Seq<char>, ts: Seq<FsTree>, t: FsTree)
    ensures
        spec_plan_entries(prefix, rel, ts.push(t)) == spec_plan_entries(prefix, rel, ts)
            + spec_plan_entry(prefix, rel, t),
    decreases ts.len(),
{
    if ts.len() == 0 {
        assert(ts.push(t).drop_first() =~= Seq::<FsTree>::empty());
        assert(ts.push(t)[0] == t);
        assert(spec_plan_entries(prefix, rel, ts) =~= Seq::<PlanItemView>::empty());
        assert(spec_plan_entries(prefix, rel, ts.push(t).drop_first())
            == Seq::<PlanItemView>::empty());
        assert(spec_plan_entries(prefix, rel, ts.push(t)) == spec_plan_entry(
            prefix,
            rel,
            ts.push(t)[0],
        ) + spec_plan_entries(prefix, rel, ts.push(t).drop_first()));
        assert(spec_plan_entries(prefix, rel, ts.push(t)) =~= spec_plan_entries(prefix, rel, ts)
            + spec_plan_entry(prefix, rel, t));
    } else {
        lemma_plan_entries_push(prefix, rel, ts.drop_first(), t);
        assert(ts.push(t).drop_first() =~= ts.drop_first().push(t));
        assert(ts.push(t)[0] == ts[0]);
        assert(spec_plan_entry(prefix, rel, ts[0]) + (spec_plan_entries(prefix, rel, ts.drop_first())
            + spec_plan_entry(prefix, rel, t)) =~= (spec_plan_entry(prefix, rel, ts[0])
            + spec_plan_entries(prefix, rel, ts.drop_first())) + spec_plan_entry(prefix, rel, t));
    }
}

fn plan_into(prefix: &str, rel: &str, e: &FsEntry, out: &mut Vec<PlanItem>)
    ensures
        views_of_items(final(out)@) == views_of_items(old(out)@) + spec_plan_entry(
            prefix@,
            rel@,
            e@,
        ),
    decreases *e,
{
    match e {
        FsEntry::File { name } => {
            let key = crate::text::concat2(prefix, name.as_str());
            let relp = crate::text::concat2(rel, name.as_str());
            let ct = content_type_of(name.as_str());
            out.push(PlanItem { rel_path: relp, key, content_type: ct });
            proof {
                assert(views_of_items(out@) =~= views_of_items(old(out)@) + spec_plan_entry(
                    prefix@,
                    rel@,
                    e@,
                ));
            }
        },
        FsEntry::Dir { name, entries } => {
            let p2 = crate::text::concat3(prefix, name.as_str(), "/");
            let r2 = crate::text::concat3(rel, name.as_str(), "/");
            let ghost ts = views_of_entries(entries@);
            proof {
                lemma_views_of_entries(entries@);
                assert(ts.subrange(0, 0) =~= Seq::<FsTree>::empty());
            }
            let n = entries.len();
            let mut i: usize = 0;
            while i < n
                invariant
                    0 <= i <= n,
                    n == entries@.len(),
                    ts == views_of_entries(entries@),
                    ts.len() == entries@.len(),
                    forall|j: int| 0 <= j < entries@.len() ==> ts[j] == view_of_entry(entries@[j]),
                    *e is Dir,
                    e->Dir_entries == *entries,
                    p2@ == prefix@ + name@ + "/"@,
                    r2@ == rel@ + name@ + "/"@,
                    views_of_items(out@) == views_of_items(old(out)@) + spec_plan_entries(
                        p2@,
                        r2@,
                        ts.subrange(0, i as int),
                    ),
                decreases n - i,
            {
                proof {
                    assert(decreases_to!(*e => e->Dir_entries));
                    assert(decreases_to!(*entries => entries@));
                    assert(decreases_to!(entries@ => entries@[i as int]));
                    assert(decreases_to!(*e => entries@[i as int]));
                }
                plan_into(p2.as_str(), r2.as_str(), &entries[i], out);
                proof {
                    lemma_plan_entries_push(p2@, r2@, ts.subrange(0, i as int), ts[i as int]);
                    assert(ts.subrange(0, i as int + 1) =~= ts.subrange(0, i as int).push(
                        ts[i as int],
                    ));
                    assert(views_of_items(out@) =~= views_of_items(old(out)@) + spec_plan_entries(
                        p2@,
                        r2@,
                        ts.subrange(0, i as int + 1),
                    ));
                }
                i = i + 1;
            }
            proof {
                assert(ts.subrange(0, ts.len() as int) =~= ts);
            }
        },
    }
}

/// Plan the uploads for a local file or directory tree under a destination
/// key prefix. A single file becomes one upload keyed `prefix` plus the
/// file's name; a directory becomes one upload per file under it, keyed
/// `prefix` plus the file's `/`-separated path relative to the directory.
pub fn upload_plan(prefix: &str, root: &FsEntry) -> (r: Vec<PlanItem>)
    ensures
        views_of_items(r@) == spec_upload_plan(prefix@, root@),
{
    let mut out: Vec<PlanItem> = Vec::new();
    match root {
        FsEntry::File { name } => {
            let key = crate::text::concat2(prefix, name.as_str());
            let ct = content_type_of(name.as_str());
            out.push(PlanItem { rel_path: name.clone(), key, content_type: ct });
            proof {
                assert(views_of_items(out@) =~= spec_upload_plan(prefix@, root@));
            }
        },
        FsEntry::Dir { name: _, entries } => {
            let ghost ts = views_of_entries(entries@);
            proof {
                lemma_views_of_entries(entries@);
                reveal_strlit("");
                assert(""@ =~= Seq::<char>::empty());
                assert(ts.subrange(0, 0) =~= Seq::<FsTree>::empty());
                assert(views_of_items(out@) =~= Seq::<PlanItemView>::empty());
            }
            let n = entries.len();
            let mut i: usize = 0;
            while i < n
                invariant
                    0 <= i <= n,
                    n == entries@.len(),
                    ts == views_of_entries(entries@),
                    ts.len() == entries@.len(),
                    forall|j: int| 0 <= j < entries@.len() ==> ts[j] == view_of_entry(entries@[j]),
                    views_of_items(out@) == spec_plan_entries(
                        prefix@,
                        Seq::empty(),
                        ts.subrange(0, i as int),
                    ),
                decreases n - i,
            {
                plan_into(prefix, "", &entries[i], &mut out);
                proof {
                    reveal_strlit("");
                    assert(""@ =~= Seq::<char>::empty());
                    lemma_plan_entries_push(
                        prefix@,
                        Seq::empty(),
                        ts.subrange(0, i as int),
                        ts[i as int],
                    );
                    assert(ts.subrange(0, i as int + 1) =~= ts.subrange(0, i as int).push(
                        ts[i as int],
                    ));
                    assert(views_of_items(out@) =~= spec_plan_entries(
                        prefix@,
                        Seq::empty(),
                        ts.subrange(0, i as int + 1),
                    ));
                }
                i = i + 1;
            }
            proof {
                assert(ts.subrange(0, ts.len() as int) =~= ts);
            }
        },
    }
    out
}

} // verus!

verus! {

/// The number of files in a tree.
pub open spec fn spec_file_count(t: FsTree) -> nat
    decreases t, 0nat,
{
    match t {
        FsTree::File { name } => 1,
        FsTree::Dir { name, entries } => spec_file_count_entries(entries),
    }
}

/// The number of files under a list of entries.
pub open spec fn spec_file_count_entries(ts: Seq<FsTree>) -> nat
    decreases ts, 1nat,
{
    if ts.len() == 0 {
        0
    } else {
        spec_file_count(ts[0]) + spec_file_count_entries(ts.drop_first())
    }
}

proof fn lemma_plan_entry_len(prefix: Seq<char>, rel: Seq<char>, t: FsTree)
    ensures
        spec_plan_entry(prefix, rel, t).len() == spec_file_count(t),
    decreases t, 0nat,
{
    match t {
        FsTree::File { name } => {},
        FsTree::Dir { name, entries } => {
            lemma_plan_entries_len(prefix + name + "/"@, rel + name + "/"@, entries);
        },
    }
}

proof fn lemma_plan_entries_len(prefix: Seq<char>, rel: Seq<char>, ts: Seq<FsTree>)
    ensures
        spec_plan_entries(prefix, rel, ts).len() == spec_file_count_entries(ts),
    decreases ts, 1nat,
{
    if ts.len() > 0 {
        lemma_plan_entry_len(prefix, rel, ts[0]);
        lemma_plan_entries_len(prefix, rel, ts.drop_first());
    }
}

/// Every item's key extends `prefix` and its relative path extends `rel`, by
/// one and the same suffix.
pub open spec fn spec_keys_extend(
    prefix: Seq<char>,
    rel: Seq<char>,
    items: Seq<PlanItemView>,
) -> bool {
    forall|i: int|
        #![trigger items[i]]
        0 <= i < items.len() ==> {
            &&& crate::text::spec_starts_with(items[i].key, prefix)
            &&& crate::text::spec_starts_with(items[i].rel_path, rel)
            &&& items[i].key.skip(prefix.len() as int) == items[i].rel_path.skip(rel.len() as int)
        }
}

proof fn lemma_extend_through(outer: Seq<char>, mid: Seq<char>, s: Seq<char>)
    requires
        crate::text::spec_starts_with(mid, outer),
        crate::text::spec_starts_with(s, mid),
    ensures
        crate::text::spec_starts_with(s, outer),
        s.skip(outer.len() as int) == mid.skip(outer.len() as int) + s.skip(mid.len() as int),
{
    assert(s.subrange(0, outer.len() as int) =~= outer);
    assert(s.skip(outer.len() as int) =~= mid.skip(outer.len() as int) + s.skip(mid.len() as int));
}

proof fn lemma_plan_entry_extends(prefix: Seq<char>, rel: Seq<char>, t: FsTree)
    ensures
        spec_keys_extend(prefix, rel, spec_plan_entry(prefix, rel, t)),
    decreases t, 0nat,
{
    match t {
        FsTree::File { name } => {
            assert((prefix + name).subrange(0, prefix.len() as int) =~= prefix);
            assert((rel + name).subrange(0, rel.len() as int) =~= rel);
            assert((prefix + name).skip(prefix.len() as int) =~= name);
            assert((rel + name).skip(rel.len() as int) =~= name);
        },
        FsTree::Dir { name, entries } => {
            let p2 = prefix + name + "/"@;
            let r2 = rel + name + "/"@;
            lemma_plan_entries_extends(p2, r2, entries);
            let items = spec_plan_entries(p2, r2, entries);
            assert(p2.subrange(0, prefix.len() as int) =~= prefix);
            assert(r2.subrange(0, rel.len() as int) =~= rel);
            assert(p2.skip(prefix.len() as int) =~= name + "/"@);
            assert(r2.skip(rel.len() as int) =~= name + "/"@);
            assert forall|i: int| 0 <= i < items.len() implies {
                &&& crate::text::spec_starts_with(#[trigger] items[i].key, prefix)
                &&& crate::text::spec_starts_with(items[i].rel_path, rel)
                &&& items[i].key.skip(prefix.len() as int) == items[i].rel_path.skip(
                    rel.len() as int,
                )
            } by {
                lemma_extend_through(prefix, p2, items[i].key);
                lemma_extend_through(rel, r2, items[i].rel_path);
            }
        },
    }
}

proof fn lemma_plan_entries_extends(prefix: Seq<char>, rel: Seq<char>, ts: Seq<FsTree>)
    ensures
        spec_keys_extend(prefix, rel, spec_plan_entries(prefix, rel, ts)),
    decreases ts, 1nat,
{
    if ts.len() > 0 {
        lemma_plan_entry_extends(prefix, rel, ts[0]);
        lemma_plan_entries_extends(prefix, rel, ts.drop_first());
        let head = spec_plan_entry(prefix, rel, ts[0]);
        let tail = spec_plan_entries(prefix, rel, ts.drop_first());
        let items = spec_plan_entries(prefix, rel, ts);
        assert forall|i: int| 0 <= i < items.len() implies {
            &&& crate::text::spec_starts_with(#[trigger] items[i].key, prefix)
            &&& crate::text::spec_starts_with(items[i].rel_path, rel)
            &&& items[i].key.skip(prefix.len() as int) == items[i].rel_path.skip(rel.len() as int)
        } by {
            if i < head.len() {
                assert(items[i] == head[i]);
            } else {
                assert(items[i] == tail[i - head.len()]);
            }
        }
    }
}

/// Law: uploading a single file produces exactly one object, and its key is
/// the destination prefix followed by the file's name.
pub proof fn lemma_upload_single_file(prefix: Seq<char>, name: Seq<char>)
    ensures
        spec_upload_plan(prefix, FsTree::File { name }).len() == 1,
        spec_upload_plan(prefix, FsTree::File { name })[0].key == prefix + name,
        spec_upload_plan(prefix, FsTree::File { name })[0].rel_path == name,
{
}

/// Law: an upload plan holds one item per file under the walked tree, and
/// each item's key is the destination prefix followed by the item's relative
/// path from the walk's root.
pub proof fn lemma_upload_plan_keys(prefix: Seq<char>, t: FsTree)
    ensures
        spec_upload_plan(prefix, t).len() == spec_file_count(t),
        forall|i: int|
            #![trigger spec_upload_plan(prefix, t)[i]]
            0 <= i < spec_upload_plan(prefix, t).len() ==> spec_upload_plan(prefix, t)[i].key
                == prefix + spec_upload_plan(prefix, t)[i].rel_path,
{
    match t {
        FsTree::File { name } => {
            assert(spec_upload_plan(prefix, t)[0].rel_path == name);
        },
        FsTree::Dir { name, entries } => {
            lemma_plan_entries_len(prefix, Seq::empty(), entries);
            lemma_plan_entries_extends(prefix, Seq::empty(), entries);
            let items = spec_upload_plan(prefix, t);
            assert forall|i: int|
                0 <= i < items.len() implies (#[trigger] items[i]).key == prefix
                + items[i].rel_path by {
                assert(items[i].rel_path.skip(0) =~= items[i].rel_path);
                assert(items[i].key =~= prefix + items[i].key.skip(prefix.len() as int));
            }
        },
    }
}

} // verus!

verus! {

/// Keep, in order, the keys that start with the given prefix; no prefix
/// keeps every key.
pub fn filter_objects(keys: &Vec<String>, prefix: &Option<String>) -> (r: Vec<String>)
    ensures
        r.deep_view() == (match prefix {
            Option::Some(p) => spec_prefix_filter(keys.deep_view(), p@),
            Option::None => keys.deep_view(),
        }),
{
    let mut out: Vec<String> = Vec::new();
    match prefix {
        Option::None => {
            let n = keys.len();
            let mut i: usize = 0;
            while i < n
                invariant
                    0 <= i <= n,
                    n == keys@.len(),
                    out@.len() == i,
                    forall|j: int| 0 <= j < i ==> out@[j]@ == keys@[j]@,
                decreases n - i,
            {
                out.push(keys[i].clone());
                i = i + 1;
            }
            proof {
                assert(out.deep_view() =~= keys.deep_view());
            }
        },
        Option::Some(p) => {
            let ghost pred = |k: Seq<char>| crate::text::spec_starts_with(k, p@);
            proof {
                reveal(Seq::filter);
                assert(keys.deep_view().subrange(0, 0) =~= Seq::<Seq<char>>::empty());
            }
            let n = keys.len();
            let mut i: usize = 0;
            while i < n
                invariant
                    0 <= i <= n,
                    n == keys@.len(),
                    pred == (|k: Seq<char>| crate::text::spec_starts_with(k, p@)),
                    out.deep_view() == keys.deep_view().subrange(0, i as int).filter(pred),
                decreases n - i,
            {
                let ghost prev = out.deep_view();
                let keep = crate::text::str_starts_with(keys[i].as_str(), p.as_str());
                if keep {
                    out.push(keys[i].clone());
                }
                proof {
                    reveal(Seq::filter);
                    let dv = keys.deep_view();
                    assert(dv.subrange(0, i as int + 1).drop_last() =~= dv.subrange(0, i as int));
                    assert(dv.subrange(0, i as int + 1).last() == dv[i as int]);
                    assert(dv[i as int] == keys@[i as int]@);
                    if keep {
                        assert(out.deep_view() =~= prev.push(dv[i as int]));
                    } else {
                        assert(out.deep_view() =~= prev);
                    }
                }
                i = i + 1;
            }
            proof {
                assert(keys.deep_view().subrange(0, n as int) =~= keys.deep_view());
            }
        },
    }
    out
}

/// The keys of a listing that start with the given prefix, in order.
pub open spec fn spec_prefix_filter(keys: Seq<Seq<char>>, p: Seq<char>) -> Seq<Seq<char>> {
    keys.filter(|k: Seq<char>| crate::text::spec_starts_with(k, p))
}

/// Law: filtering a listing by a prefix keeps only keys that start with the
/// prefix, and keeps every key that does.
pub proof fn lemma_prefix_filter_exact(keys: Seq<Seq<char>>, p: Seq<char>)
    ensures
        forall|i: int|
            0 <= i < spec_prefix_filter(keys, p).len() ==> crate::text::spec_starts_with(
                #[trigger] spec_prefix_filter(keys, p)[i],
                p,
            ),
        forall|i: int|
            0 <= i < keys.len() && crate::text::spec_starts_with(#[trigger] keys[i], p)
                ==> spec_prefix_filter(keys, p).contains(keys[i]),
{
    let pred = |k: Seq<char>| crate::text::spec_starts_with(k, p);
    assert forall|i: int|
        0 <= i < spec_prefix_filter(keys, p).len() implies crate::text::spec_starts_with(
        #[trigger] spec_prefix_filter(keys, p)[i],
        p,
    ) by {
        keys.lemma_filter_pred(pred, i);
    }
    assert forall|i: int|
        0 <= i < keys.len() && crate::text::spec_starts_with(#[trigger] keys[i], p) implies
        spec_prefix_filter(keys, p).contains(keys[i]) by {
        keys.lemma_filter_contains(pred, i);
    }
}

/// Where a downloaded object lands: the destination directory, a `/` unless
/// the directory already ends with one, then the object's key.
pub open spec fn spec_download_path(dir: Seq<char>, key: Seq<char>) -> Seq<char> {
    if dir.len() > 0 && dir.last() == '/' {
        dir + key
    } else {
        dir + seq!['/'] + key
    }
}

/// The local path a download of `key` into `dir` writes to.
pub fn download_path(dir: &str, key: &str) -> (r: String)
    ensures
        r@ == spec_download_path(dir@, key@),
{
    let n = dir.unicode_len();
    if n > 0 && dir.get_char(n - 1) == '/' {
        crate::text::concat2(dir, key)
    } else {
        let r = crate::text::concat3(dir, "/", key);
        proof {
            reveal_strlit("/");
            assert(r@ =~= spec_download_path(dir@, key@));
        }
        r
    }
}

/// The parent of a `/`-separated path: everything before the last separator,
/// or nothing when the path has no separator.
pub open spec fn spec_parent_dir(path: Seq<char>) -> Option<Seq<char>>
    decreases path.len(),
{
    if path.len() == 0 {
        Option::None
    } else if path.last() == '/' {
        Option::Some(path.drop_last())
    } else {
        spec_parent_dir(path.drop_last())
    }
}

/// The directory part of a `/`-separated path, if it has one.
pub fn parent_dir(path: &str) -> (r: Option<String>)
    ensures
        match r {
            Some(s) => spec_parent_dir(path@) == Some(s@),
            None => spec_parent_dir(path@) is None,
        },
{
    let n = path.unicode_len();
    proof {
        assert(path@.subrange(0, n as int) =~= path@);
    }
    let mut i: usize = n;
    while i > 0
        invariant
            0 <= i <= n,
            n == path@.len(),
            spec_parent_dir(path@) == spec_parent_dir(path@.subrange(0, i as int)),
        decreases i,
    {
        if path.get_char(i - 1) == '/' {
            let s = path.substring_char(0, i - 1).to_owned();
            proof {
                assert(path@.subrange(0, i as int).drop_last() =~= path@.subrange(0, i as int - 1));
            }
            return Some(s);
        }
        proof {
            assert(path@.subrange(0, i as int).drop_last() =~= path@.subrange(0, i as int - 1));
        }
        i = i - 1;
    }
    proof {
        assert(path@.subrange(0, 0) =~= Seq::<char>::empty());
    }
    None
}

} // verus!

verus! {

/// The date-time text that the storage SDK renders for a moment, if the
/// moment is representable. The rendering is a function of the two numbers
/// alone.
pub uninterp spec fn smithy_date_of(secs: i64, nanos: u32) -> Option<Seq<char>>;

/// Relies on `aws_smithy_types::DateTime::from_secs_and_nanos`, which only
/// panics when the nanoseconds reach a full second, and `DateTime::fmt` with
/// the date-time format, which renders the moment exactly when it is
/// representable. Both depend on the two numbers alone.
#[verifier::external_body]
fn smithy_date_time(secs: i64, nanos: u32) -> (r: Option<String>)
    requires
        nanos < 1_000_000_000,
    ensures
        match r {
            Some(s) => smithy_date_of(secs, nanos) == Some(s@),
            None => smithy_date_of(secs, nanos) is None,
        },
{
    aws_smithy_types::DateTime::from_secs_and_nanos(secs, nanos)
        .fmt(aws_smithy_types::date_time::Format::DateTime)
        .ok()
}

/// One line of an object listing: the key, the human-readable size, and the
/// last-modified date, in padded columns.
pub open spec fn spec_object_line(key: Seq<char>, size: u64, date: Seq<char>) -> Seq<char> {
    crate::text::spec_pad_right(key, 50) + " | "@ + crate::text::spec_pad_right(
        spec_format_size(size),
        9,
    ) + " | "@ + crate::text::spec_pad_right(date, 30)
}

/// Render one line of an object listing, if the modification moment is
/// representable.
pub fn object_line(key: &str, size: u64, last_modified: &crate::s3::client::Timestamp) -> (r:
    Option<String>)
    requires
        last_modified.nanos < 1_000_000_000,
    ensures
        match r {
            Some(s) => smithy_date_of(last_modified.secs, last_modified.nanos) matches Some(d)
                && s@ == spec_object_line(key@, size, d),
            None => smithy_date_of(last_modified.secs, last_modified.nanos) is None,
        },
{
    let date = smithy_date_time(last_modified.secs, last_modified.nanos);
    match date {
        Option::None => None,
        Option::Some(d) => {
            let mut out = crate::text::pad_right(key, 50);
            out.append(" | ");
            let size_text = format_size(size);
            out.append(crate::text::pad_right(size_text.as_str(), 9).as_str());
            out.append(" | ");
            out.append(crate::text::pad_right(d.as_str(), 30).as_str());
            Some(out)
        },
    }
}

} // verus!

