//! The model catalog as the proxy lists it: the id each discovered model is
//! listed under, and the listing itself.

use vstd::prelude::*;
use vstd::string::*;
use vstd::seq_lib::*;
use crate::text::{bytes_le, str_le, str_le_exec, lemma_str_le_total_order, views};
use vstd::utf8::encode_utf8;

verus! {

/// A model file found on disk.
#[derive(Debug, Clone, PartialEq, Eq)]
pub struct DiscoveredModel {
    /// Where the model file lies (a Unix path, `/`-separated).
    pub path: String,
    /// A label chosen for the model, if any.
    pub display_label: Option<String>,
}

/// Whether a path segment is skipped when looking for the file name: an
/// empty one (from repeated or trailing separators) or `.`.
pub open spec fn skipped_segment(seg: Seq<char>) -> bool {
    seg.len() == 0 || seg == seq!['.']
}

/// The file name a segment gives: none for `..`, the segment otherwise.
pub open spec fn named_segment(seg: Seq<char>) -> Option<Seq<char>> {
    if seg == seq!['.', '.'] {
        None
    } else {
        Some(seg)
    }
}

/// The file name of `p`, scanning backwards; `p[end..seg_end]` is the part
/// of the current segment already passed over.
pub open spec fn file_name_from(p: Seq<char>, end: int, seg_end: int) -> Option<Seq<char>>
    decreases end,
{
    if end <= 0 {
        let seg = p.subrange(0, seg_end);
        if skipped_segment(seg) {
            None
        } else {
            named_segment(seg)
        }
    } else if p[end - 1] == '/' {
        let seg = p.subrange(end, seg_end);
        if skipped_segment(seg) {
            file_name_from(p, end - 1, end - 1)
        } else {
            named_segment(seg)
        }
    } else {
        file_name_from(p, end - 1, seg_end)
    }
}

/// The final component of a path, as `Path::file_name` gives it: the last
/// segment that is neither empty nor `.`, and none if that is `..` or if
/// there is no such segment.
pub open spec fn file_name(p: Seq<char>) -> Option<Seq<char>> {
    file_name_from(p, p.len() as int, p.len() as int)
}

/// The index of the last `.` in `name[0..end]`, or -1 where there is none.
pub open spec fn last_dot(name: Seq<char>, end: int) -> int
    decreases end,
{
    if end <= 0 {
        -1
    } else if name[end - 1] == '.' {
        end - 1
    } else {
        last_dot(name, end - 1)
    }
}

/// The stem of a file name: the whole name if it holds no `.` or only a
/// leading one, else the part before the final `.`.
pub open spec fn stem_of(name: Seq<char>) -> Seq<char> {
    let d = last_dot(name, name.len() as int);
    if d <= 0 {
        name
    } else {
        name.subrange(0, d)
    }
}

/// The stem of the file name of a path, as `Path::file_stem` gives it.
pub open spec fn file_stem(p: Seq<char>) -> Option<Seq<char>> {
    match file_name(p) {
        Some(name) => Some(stem_of(name)),
        None => None,
    }
}

fn chars_of(s: &str) -> (v: Vec<char>)
    ensures
        v@ == s@,
{
    broadcast use vstd::string::group_string_axioms;
    let mut v: Vec<char> = Vec::new();
    for c in it: s.chars()
        invariant
            it.seq() == s@,
            v@ == it.seq().take(it.index() as int),
    {
        v.push(c);
    }
    assert(v@ =~= s@);
    v
}

/// Whether `v[a..b]` is a skipped segment.
fn is_skipped(v: &Vec<char>, a: usize, b: usize) -> (r: bool)
    requires
        a <= b <= v@.len(),
    ensures
        r == skipped_segment(v@.subrange(a as int, b as int)),
{
    if a == b {
        true
    } else if b - a == 1 && v[a] == '.' {
        assert(v@.subrange(a as int, b as int) =~= seq!['.']);
        true
    } else {
        let ghost d = seq!['.'];
        assert(d.len() == 1 && d[0] == '.');
        assert(b - a == 1 ==> v@.subrange(a as int, b as int)[0] == v@[a as int]);
        false
    }
}

/// Whether `v[a..b]` is `..`.
fn is_parent(v: &Vec<char>, a: usize, b: usize) -> (r: bool)
    requires
        a <= b <= v@.len(),
    ensures
        r == (v@.subrange(a as int, b as int) == seq!['.', '.']),
{
    if b - a == 2 && v[a] == '.' && v[a + 1] == '.' {
        assert(v@.subrange(a as int, b as int) =~= seq!['.', '.']);
        true
    } else {
        let ghost dd = seq!['.', '.'];
        assert(dd.len() == 2 && dd[0] == '.' && dd[1] == '.');
        assert(b - a == 2 ==> v@.subrange(a as int, b as int)[0] == v@[a as int]
            && v@.subrange(a as int, b as int)[1] == v@[a + 1]);
        false
    }
}

/// Where the file name of the path `v` lies in it.
fn file_name_bounds(v: &Vec<char>) -> (r: Option<(usize, usize)>)
    ensures
        match file_name(v@) {
            Some(name) => r matches Some((a, b)) && a <= b <= v@.len() && v@.subrange(
                a as int,
                b as int,
            ) == name,
            None => r is None,
        },
{
    let n = v.len();
    let mut end: usize = n;
    let mut seg_end: usize = n;
    while end > 0
        invariant
            n == v@.len(),
            end <= seg_end <= n,
            file_name(v@) == file_name_from(v@, end as int, seg_end as int),
        decreases end,
    {
        if v[end - 1] == '/' {
            if is_skipped(v, end, seg_end) {
                end = end - 1;
                seg_end = end;
            } else if is_parent(v, end, seg_end) {
                return None;
            } else {
                return Some((end, seg_end));
            }
        } else {
            end = end - 1;
        }
    }
    if is_skipped(v, 0, seg_end) || is_parent(v, 0, seg_end) {
        None
    } else {
        Some((0, seg_end))
    }
}

/// Where the stem ends within the file name `v[a..b]`.
fn stem_end(v: &Vec<char>, a: usize, b: usize) -> (r: usize)
    requires
        a <= b <= v@.len(),
    ensures
        a <= r <= b,
        v@.subrange(a as int, r as int) == stem_of(v@.subrange(a as int, b as int)),
{
    let ghost name = v@.subrange(a as int, b as int);
    let mut j: usize = b;
    while j > a
        invariant
            a <= j <= b <= v@.len(),
            name == v@.subrange(a as int, b as int),
            last_dot(name, name.len() as int) == last_dot(name, j - a),
        decreases j,
    {
        if v[j - 1] == '.' {
            assert(name[j - 1 - a] == '.');
            if j - 1 == a {
                return b;
            } else {
                assert(v@.subrange(a as int, (j - 1) as int) =~= name.subrange(0, j - 1 - a));
                return j - 1;
            }
        }
        assert(name[j - 1 - a] != '.');
        j = j - 1;
    }
    b
}

/// The file stem of a path, as `Path::file_stem` gives it for a Unix path.
pub fn path_file_stem(path: &str) -> (r: Option<String>)
    ensures
        match file_stem(path@) {
            Some(stem) => r matches Some(s) && s@ == stem,
            None => r is None,
        },
{
    let v = chars_of(path);
    match file_name_bounds(&v) {
        Some((a, b)) => {
            let e = stem_end(&v, a, b);
            Some(String::from_str(path.substring_char(a, e)))
        },
        None => None,
    }
}

/// The id a model is listed under: its label where it has one, else the
/// stem of its file name (its whole path where that has no file name).
pub open spec fn model_id(m: DiscoveredModel) -> Seq<char> {
    match m.display_label {
        Some(label) => label@,
        None => match file_stem(m.path@) {
            Some(stem) => stem,
            None => m.path@,
        },
    }
}

/// The id `m` is listed under.
pub fn model_id_for(m: &DiscoveredModel) -> (id: String)
    ensures
        id@ == model_id(*m),
{
    match &m.display_label {
        Some(label) => label.clone(),
        None => match path_file_stem(m.path.as_str()) {
            Some(stem) => stem,
            None => m.path.clone(),
        },
    }
}

/// The ids of the models of a catalog, in catalog order.
pub open spec fn catalog_ids(catalog: Seq<DiscoveredModel>) -> Seq<Seq<char>> {
    catalog.map_values(|m: DiscoveredModel| model_id(m))
}

/// Whether a sequence of ids is in ascending order.
pub open spec fn ids_sorted(ids: Seq<Seq<char>>) -> bool {
    forall|i: int, j: int| 0 <= i < j < ids.len() ==> str_le(ids[i], ids[j])
}

/// Whether `out` lists the models of `catalog`: each model's id, as often
/// as it occurs, in ascending order.
pub open spec fn is_listing_of(catalog: Seq<DiscoveredModel>, out: Seq<Seq<char>>) -> bool {
    &&& ids_sorted(out)
    &&& out.to_multiset() == catalog_ids(catalog).to_multiset()
}

/// The ids of the catalog's models, sorted as strings compare.
pub fn sorted_model_ids(catalog: &Vec<DiscoveredModel>) -> (ids: Vec<String>)
    ensures
        is_listing_of(catalog@, views(ids@)),
{
    let mut out: Vec<String> = Vec::new();
    let n = catalog.len();
    let mut i: usize = 0;
    assert(views(out@) =~= catalog_ids(catalog@).take(0));
    while i < n
        invariant
            n == catalog@.len(),
            i <= n,
            ids_sorted(views(out@)),
            views(out@).to_multiset() == catalog_ids(catalog@).take(i as int).to_multiset(),
        decreases n - i,
    {
        let id = model_id_for(&catalog[i]);
        let len = out.len();
        let mut k: usize = 0;
        while k < len && str_le_exec(out[k].as_str(), id.as_str())
            invariant
                len == out@.len(),
                k <= len,
                forall|t: int| 0 <= t < k ==> str_le(#[trigger] views(out@)[t], id@),
            decreases len - k,
        {
            k = k + 1;
        }
        let ghost before = views(out@);
        proof {
            assert(k < len ==> !str_le(before[k as int], id@));
        }
        out.insert(k, id);
        proof {
            let after = views(out@);
            assert(after =~= before.insert(k as int, id@));
            assert forall|a: int, b: int| 0 <= a < b < after.len() implies str_le(
                after[a],
                after[b],
            ) by {
                if b < k {
                } else if a < k && b == k {
                } else if a < k {
                    assert(after[b] == before[b - 1]);
                } else if a == k {
                    assert(after[b] == before[b - 1]);
                    lemma_str_le_total_order(before[k as int], id@, before[b - 1]);
                    lemma_str_le_total_order(id@, before[k as int], before[b - 1]);
                } else {
                    assert(after[a] == before[a - 1]);
                    assert(after[b] == before[b - 1]);
                }
            }
            to_multiset_insert(before, k as int, id@);
            let ids = catalog_ids(catalog@);
            assert(ids.take(i + 1) =~= ids.take(i as int).push(id@));
            to_multiset_build(ids.take(i as int), id@);
        }
        i = i + 1;
    }
    proof {
        assert(catalog_ids(catalog@).take(n as int) =~= catalog_ids(catalog@));
    }
    out
}

/// Two ascending sequences of ids with the same elements are equal.
pub proof fn lemma_sorted_ids_unique(s1: Seq<Seq<char>>, s2: Seq<Seq<char>>)
    requires
        ids_sorted(s1),
        ids_sorted(s2),
        s1.to_multiset() == s2.to_multiset(),
    ensures
        s1 == s2,
    decreases s1.len(),
{
    s1.to_multiset_ensures();
    s2.to_multiset_ensures();
    assert(s1.len() == s1.to_multiset().len());
    assert(s2.len() == s2.to_multiset().len());
    if s1.len() == 0 {
        assert(s1 =~= s2);
    } else {
        let x = s1[0];
        let y = s2[0];
        assert(s1.contains(x));
        assert(s1.to_multiset().count(x) > 0);
        assert(s2.contains(x));
        let j = choose|j: int| 0 <= j < s2.len() && s2[j] == x;
        assert(s2.contains(y));
        assert(s2.to_multiset().count(y) > 0);
        assert(s1.contains(y));
        let k = choose|k: int| 0 <= k < s1.len() && s1[k] == y;
        if j != 0 && k != 0 {
            assert(str_le(y, x));
            assert(str_le(x, y));
            lemma_str_le_total_order(x, y, x);
        }
        assert(x == y);
        to_multiset_remove(s1, 0);
        to_multiset_remove(s2, 0);
        assert(s1.remove(0) =~= s1.drop_first());
        assert(s2.remove(0) =~= s2.drop_first());
        lemma_sorted_ids_unique(s1.drop_first(), s2.drop_first());
        assert forall|i: int| 0 < i < s1.len() implies s1[i] == s2[i] by {
            assert(s1[i] == s1.drop_first()[i - 1]);
            assert(s2[i] == s2.drop_first()[i - 1]);
        }
        assert(s1 =~= s2);
    }
}

/// The listing depends on which models the catalog holds, not on the order
/// in which it holds them: catalogs whose models carry the same ids, as
/// often each, are listed identically.
pub proof fn lemma_listing_order_independent(
    c1: Seq<DiscoveredModel>,
    c2: Seq<DiscoveredModel>,
    o1: Seq<Seq<char>>,
    o2: Seq<Seq<char>>,
)
    requires
        is_listing_of(c1, o1),
        is_listing_of(c2, o2),
        catalog_ids(c1).to_multiset() == catalog_ids(c2).to_multiset(),
    ensures
        o1 == o2,
{
    lemma_sorted_ids_unique(o1, o2);
}

proof fn lemma_scan_segment(p: Seq<char>, lo: int, k: int, seg_end: int)
    requires
        0 < lo <= k <= seg_end <= p.len(),
        forall|i: int| lo <= i < k ==> p[i] != '/',
    ensures
        file_name_from(p, k, seg_end) == file_name_from(p, lo, seg_end),
    decreases k - lo,
{
    if k > lo {
        lemma_scan_segment(p, lo, k - 1, seg_end);
    }
}

proof fn lemma_scan_extension(name: Seq<char>, lo: int, k: int)
    requires
        0 <= lo <= k <= name.len(),
        forall|i: int| lo <= i < k ==> name[i] != '.',
    ensures
        last_dot(name, k) == last_dot(name, lo),
    decreases k - lo,
{
    if k > lo {
        lemma_scan_extension(name, lo, k - 1);
    }
}

/// The file name of a path that ends in a name after a `/` is that name,
/// unless it is `.` or `..` (or empty).
pub proof fn lemma_file_name_of_last_segment(dir: Seq<char>, name: Seq<char>)
    requires
        name.len() > 0,
        forall|i: int| 0 <= i < name.len() ==> name[i] != '/',
        name != seq!['.'],
        name != seq!['.', '.'],
    ensures
        file_name(dir + seq!['/'] + name) == Some(name),
{
    let p = dir + seq!['/'] + name;
    let lo: int = dir.len() + 1int;
    assert forall|i: int| lo <= i < p.len() implies p[i] != '/' by {
        assert(p[i] == name[i - lo]);
    }
    lemma_scan_segment(p, lo, p.len() as int, p.len() as int);
    assert(p[lo - 1] == '/');
    assert(p.subrange(lo, p.len() as int) =~= name);
}

/// The stem of `dir/base.ext`, for an extension without `.` or `/`, is
/// `base`: only the last extension is removed, however many dots `base`
/// holds, as `Path::file_stem` does.
pub proof fn lemma_file_stem_strips_last_extension(dir: Seq<char>, base: Seq<char>, ext: Seq<char>)
    requires
        base.len() > 0,
        forall|i: int| 0 <= i < base.len() ==> base[i] != '/',
        forall|i: int| 0 <= i < ext.len() ==> ext[i] != '/' && ext[i] != '.',
        base + seq!['.'] + ext != seq!['.', '.'],
    ensures
        file_stem(dir + seq!['/'] + base + seq!['.'] + ext) == Some(base),
{
    let name = base + seq!['.'] + ext;
    assert forall|i: int| 0 <= i < name.len() implies name[i] != '/' by {
        if i < base.len() {
            assert(name[i] == base[i]);
        } else if i > base.len() {
            assert(name[i] == ext[i - base.len() - 1]);
        }
    }
    assert(name.len() >= 2);
    assert(name != seq!['.']) by {
        assert(seq!['.'].len() == 1);
    }
    lemma_file_name_of_last_segment(dir, name);
    assert(dir + seq!['/'] + base + seq!['.'] + ext =~= dir + seq!['/'] + name);
    assert forall|i: int| base.len() + 1 <= i < name.len() implies name[i] != '.' by {
        assert(name[i] == ext[i - base.len() - 1]);
    }
    lemma_scan_extension(name, base.len() + 1int, name.len() as int);
    assert(name[base.len() as int] == '.');
    assert(name.subrange(0, base.len() as int) =~= base);
}

/// The stem of `dir/name`, for a name without `.` or `/`, is the whole name.
pub proof fn lemma_file_stem_without_extension(dir: Seq<char>, name: Seq<char>)
    requires
        name.len() > 0,
        forall|i: int| 0 <= i < name.len() ==> name[i] != '/' && name[i] != '.',
    ensures
        file_stem(dir + seq!['/'] + name) == Some(name),
{
    assert(name != seq!['.']) by {
        assert(seq!['.'][0] == '.');
    }
    assert(name != seq!['.', '.']) by {
        assert(seq!['.', '.'][0] == '.');
    }
    lemma_file_name_of_last_segment(dir, name);
    lemma_scan_extension(name, 0, name.len() as int);
}

/// A model with a label is listed under its label; one without is listed
/// under exactly the file stem of its path, where the path has one: for
/// `dir/base.ext` that is `base`, with only the last extension removed.
pub proof fn lemma_model_id_rules(m: DiscoveredModel, dir: Seq<char>, base: Seq<char>, ext: Seq<char>)
    ensures
        (m.display_label matches Some(label) ==> model_id(m) == label@),
        (m.display_label is None && file_stem(m.path@) is Some ==> model_id(m) == file_stem(
            m.path@,
        )->0),
        (m.display_label is None && m.path@ == dir + seq!['/'] + base + seq!['.'] + ext
            && base.len() > 0 && (forall|i: int| 0 <= i < base.len() ==> base[i] != '/') && (
        forall|i: int| 0 <= i < ext.len() ==> ext[i] != '/' && ext[i] != '.') && base + seq!['.']
            + ext != seq!['.', '.'] ==> model_id(m) == base),
{
    if m.display_label is None && m.path@ == dir + seq!['/'] + base + seq!['.'] + ext
        && base.len() > 0 && (forall|i: int| 0 <= i < base.len() ==> base[i] != '/') && (forall|
        i: int,
    |
        0 <= i < ext.len() ==> ext[i] != '/' && ext[i] != '.') && base + seq!['.'] + ext != seq![
        '.',
        '.',
    ] {
        lemma_file_stem_strips_last_extension(dir, base, ext);
    }
}

/// A listing holds one id per catalog model, each model's id among them,
/// in ascending order of their UTF-8 bytes, the order `String`s compare in.
pub proof fn lemma_listing_contents(catalog: Seq<DiscoveredModel>, out: Seq<Seq<char>>)
    requires
        is_listing_of(catalog, out),
    ensures
        out.len() == catalog.len(),
        forall|k: int| 0 <= k < catalog.len() ==> out.contains(model_id(#[trigger] catalog[k])),
        forall|i: int, j: int|
            0 <= i < j < out.len() ==> bytes_le(
                encode_utf8(#[trigger] out[i]),
                encode_utf8(#[trigger] out[j]),
            ),
{
    let ids = catalog_ids(catalog);
    out.to_multiset_ensures();
    ids.to_multiset_ensures();
    assert(out.len() == out.to_multiset().len());
    assert(ids.len() == ids.to_multiset().len());
    assert forall|k: int| 0 <= k < catalog.len() implies out.contains(
        model_id(#[trigger] catalog[k]),
    ) by {
        assert(ids[k] == model_id(catalog[k]));
        assert(ids.contains(ids[k]));
        assert(ids.to_multiset().count(ids[k]) > 0);
    }
    assert forall|i: int, j: int| 0 <= i < j < out.len() implies bytes_le(
        encode_utf8(#[trigger] out[i]),
        encode_utf8(#[trigger] out[j]),
    ) by {
        assert(str_le(out[i], out[j]));
    }
}

} // verus!
