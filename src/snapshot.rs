//! The snapshot of images: the backend's listing without hidden entries,
//! each image joined with its running machine, sorted by name.
use vstd::prelude::*;
use crate::text::{is_hidden, name_is_hidden, name_less, name_lt, lemma_name_lt_irreflexive,
    lemma_name_lt_total, lemma_name_lt_transitive};

verus! {

/// A running instance of an image, as the host service reports it.
#[derive(Debug)]
pub struct Machine {
    pub name: String,
    pub class: String,
    pub id: String,
    pub path: String,
}

pub struct MachineView {
    pub name: Seq<char>,
    pub class: Seq<char>,
    pub id: Seq<char>,
    pub path: Seq<char>,
}

impl View for Machine {
    type V = MachineView;

    open spec fn view(&self) -> MachineView {
        MachineView { name: self.name@, class: self.class@, id: self.id@, path: self.path@ }
    }
}

impl Machine {
    /// A field-by-field copy.
    pub fn copy(&self) -> (r: Machine)
        ensures
            r@ == self@,
    {
        Machine {
            name: self.name.clone(),
            class: self.class.clone(),
            id: self.id.clone(),
            path: self.path.clone(),
        }
    }
}

/// A container image; `machine` is its running instance, if any.
#[derive(Debug)]
pub struct Image {
    pub name: String,
    pub kind: String,
    pub ro: bool,
    pub t_created: u64,
    pub t_modified: u64,
    pub size: u64,
    pub path: String,
    pub machine: Option<Machine>,
}

pub struct ImageView {
    pub name: Seq<char>,
    pub kind: Seq<char>,
    pub ro: bool,
    pub t_created: u64,
    pub t_modified: u64,
    pub size: u64,
    pub path: Seq<char>,
    pub machine: Option<MachineView>,
}

impl View for Image {
    type V = ImageView;

    open spec fn view(&self) -> ImageView {
        ImageView {
            name: self.name@,
            kind: self.kind@,
            ro: self.ro,
            t_created: self.t_created,
            t_modified: self.t_modified,
            size: self.size,
            path: self.path@,
            machine: match self.machine {
                Some(m) => Some(m@),
                None => None,
            },
        }
    }
}

pub open spec fn images_view(v: Seq<Image>) -> Seq<ImageView> {
    v.map_values(|i: Image| i@)
}

pub open spec fn machines_view(v: Seq<Machine>) -> Seq<MachineView> {
    v.map_values(|m: Machine| m@)
}

/// The running instance named `name`: the last one listed, as a later entry
/// replaces an earlier one of the same name.
pub open spec fn find_machine(ms: Seq<MachineView>, name: Seq<char>) -> Option<MachineView>
    decreases ms.len(),
{
    if ms.len() == 0 {
        None
    } else if ms.last().name == name {
        Some(ms.last())
    } else {
        find_machine(ms.drop_last(), name)
    }
}

/// A listed image joined with its running instance.
pub open spec fn joined(x: ImageView, ms: Seq<MachineView>) -> ImageView {
    ImageView { machine: find_machine(ms, x.name), ..x }
}

/// The listing without hidden images, each joined with its running instance.
pub open spec fn visible(l: Seq<ImageView>, ms: Seq<MachineView>) -> Seq<ImageView>
    decreases l.len(),
{
    if l.len() == 0 {
        Seq::empty()
    } else {
        let rest = visible(l.drop_last(), ms);
        let x = l.last();
        if is_hidden(x.name) {
            rest
        } else {
            rest.push(joined(x, ms))
        }
    }
}

/// `x` placed into `s` after every entry whose name does not come after its own.
pub open spec fn insert_by_name(s: Seq<ImageView>, x: ImageView) -> Seq<ImageView>
    decreases s.len(),
{
    if s.len() == 0 {
        seq![x]
    } else if name_lt(x.name, s.last().name) {
        insert_by_name(s.drop_last(), x).push(s.last())
    } else {
        s.push(x)
    }
}

/// The stable sort of `s` by name.
pub open spec fn sort_by_name(s: Seq<ImageView>) -> Seq<ImageView>
    decreases s.len(),
{
    if s.len() == 0 {
        Seq::empty()
    } else {
        insert_by_name(sort_by_name(s.drop_last()), s.last())
    }
}

/// The snapshot that a listing and the running instances give.
pub open spec fn snapshot(l: Seq<ImageView>, ms: Seq<MachineView>) -> Seq<ImageView> {
    sort_by_name(visible(l, ms))
}

pub open spec fn sorted_by_name(s: Seq<ImageView>) -> bool {
    forall|i: int, j: int| 0 <= i < j < s.len() ==> !name_lt(#[trigger] s[j].name, #[trigger] s[i].name)
}

proof fn lemma_insert_at(s: Seq<ImageView>, x: ImageView, j: int)
    requires
        0 <= j <= s.len(),
        forall|k: int| j <= k < s.len() ==> name_lt(x.name, #[trigger] s[k].name),
        j == 0 || !name_lt(x.name, s[j - 1].name),
    ensures
        insert_by_name(s, x) == s.insert(j, x),
    decreases s.len(),
{
    if s.len() == 0 {
        assert(s.insert(j, x) =~= seq![x]);
    } else if j == s.len() {
        assert(s.insert(j, x) =~= s.push(x));
    } else {
        lemma_insert_at(s.drop_last(), x, j);
        assert(s.insert(j, x) =~= s.drop_last().insert(j, x).push(s.last()));
    }
}

proof fn lemma_insert_multiset(s: Seq<ImageView>, x: ImageView)
    ensures
        insert_by_name(s, x).to_multiset() == s.to_multiset().insert(x),
    decreases s.len(),
{
    broadcast use vstd::seq_lib::group_to_multiset_ensures;
    if s.len() == 0 {
        assert(seq![x] =~= Seq::<ImageView>::empty().push(x));
    } else if name_lt(x.name, s.last().name) {
        lemma_insert_multiset(s.drop_last(), x);
        assert(s =~= s.drop_last().push(s.last()));
        assert(s.drop_last().to_multiset().insert(x).insert(s.last()) =~= s.drop_last().to_multiset().insert(
            s.last(),
        ).insert(x));
    }
}

/// Sorting keeps every entry, each as often as it was there.
pub proof fn lemma_sort_multiset(s: Seq<ImageView>)
    ensures
        sort_by_name(s).to_multiset() == s.to_multiset(),
    decreases s.len(),
{
    broadcast use vstd::seq_lib::group_to_multiset_ensures;
    if s.len() > 0 {
        lemma_sort_multiset(s.drop_last());
        lemma_insert_multiset(sort_by_name(s.drop_last()), s.last());
        assert(s =~= s.drop_last().push(s.last()));
    }
}

proof fn lemma_insert_sorted(s: Seq<ImageView>, x: ImageView)
    requires
        sorted_by_name(s),
    ensures
        sorted_by_name(insert_by_name(s, x)),
    decreases s.len(),
{
    broadcast use vstd::seq_lib::group_to_multiset_ensures;
    if s.len() == 0 {
    } else if name_lt(x.name, s.last().name) {
        let d = s.drop_last();
        let last = s.last();
        lemma_insert_sorted(d, x);
        let rec = insert_by_name(d, x);
        lemma_insert_multiset(d, x);
        assert forall|i: int| 0 <= i < rec.len() implies !name_lt(last.name, #[trigger] rec[i].name) by {
            let y = rec[i];
            assert(rec.to_multiset().count(y) > 0);
            if y != x {
                assert(d.to_multiset().count(y) > 0);
                let k = choose|k: int| 0 <= k < d.len() && d[k] == y;
                assert(s[k] == y);
                assert(!name_lt(s[s.len() - 1].name, s[k].name));
            } else {
                if name_lt(last.name, x.name) {
                    lemma_name_lt_transitive(x.name, last.name, x.name);
                    lemma_name_lt_irreflexive(x.name);
                }
            }
        }
        let r = rec.push(last);
        assert forall|i: int, j: int| 0 <= i < j < r.len() implies !name_lt(#[trigger] r[j].name, #[trigger] r[i].name) by {
            if j < rec.len() {
                assert(r[j] == rec[j] && r[i] == rec[i]);
            } else {
                assert(r[i] == rec[i]);
            }
        }
    } else {
        let r = s.push(x);
        let last = s.last();
        assert forall|i: int, j: int| 0 <= i < j < r.len() implies !name_lt(#[trigger] r[j].name, #[trigger] r[i].name) by {
            if j < s.len() {
                assert(r[j] == s[j] && r[i] == s[i]);
            } else {
                assert(r[i] == s[i]);
                if name_lt(x.name, s[i].name) {
                    if i < s.len() - 1 {
                        assert(!name_lt(s[s.len() - 1].name, s[i].name));
                    }
                    if x.name != last.name {
                        lemma_name_lt_total(x.name, last.name);
                        lemma_name_lt_transitive(last.name, x.name, s[i].name);
                    }
                    if i == s.len() - 1 {
                        lemma_name_lt_irreflexive(x.name);
                    }
                }
            }
        }
    }
}

/// Sorting by name gives a sequence in which no name comes before an earlier one.
pub proof fn lemma_sort_sorted(s: Seq<ImageView>)
    ensures
        sorted_by_name(sort_by_name(s)),
    decreases s.len(),
{
    if s.len() > 0 {
        lemma_sort_sorted(s.drop_last());
        lemma_insert_sorted(sort_by_name(s.drop_last()), s.last());
    }
}

proof fn lemma_find_machine(ms: Seq<MachineView>, name: Seq<char>)
    ensures
        find_machine(ms, name) is Some <==> exists|k: int| 0 <= k < ms.len() && #[trigger] ms[k].name == name,
        find_machine(ms, name) is Some ==> find_machine(ms, name)->0.name == name
            && ms.contains(find_machine(ms, name)->0),
    decreases ms.len(),
{
    if ms.len() > 0 {
        let d = ms.drop_last();
        lemma_find_machine(d, name);
        if find_machine(d, name) is Some {
            let k = choose|k: int| 0 <= k < d.len() && #[trigger] d[k].name == name;
            assert(ms[k] == d[k]);
            let j = choose|j: int| 0 <= j < d.len() && d[j] == find_machine(d, name)->0;
            assert(ms[j] == d[j]);
        }
        if ms.last().name != name {
            assert forall|k: int| 0 <= k < ms.len() && #[trigger] ms[k].name == name implies 0 <= k < d.len()
                && d[k].name == name by {
                if k == ms.len() - 1 {
                    assert(ms[k] == ms.last());
                }
            }
        } else {
            assert(ms[ms.len() - 1].name == name);
        }
    }
}

/// Each entry of the visible listing is an entry of the listing that is not
/// hidden, joined with its running instance.
proof fn lemma_visible_entries(l: Seq<ImageView>, ms: Seq<MachineView>, y: ImageView)
    requires
        visible(l, ms).contains(y),
    ensures
        !is_hidden(y.name),
        y.machine == find_machine(ms, y.name),
    decreases l.len(),
{
    if l.len() > 0 {
        let rest = visible(l.drop_last(), ms);
        if rest.contains(y) {
            lemma_visible_entries(l.drop_last(), ms, y);
        } else {
            let k = choose|k: int| 0 <= k < visible(l, ms).len() && visible(l, ms)[k] == y;
            assert(k == rest.len());
        }
    }
}

proof fn lemma_snapshot_entry(l: Seq<ImageView>, ms: Seq<MachineView>, i: int)
    requires
        0 <= i < snapshot(l, ms).len(),
    ensures
        visible(l, ms).contains(snapshot(l, ms)[i]),
{
    broadcast use vstd::seq_lib::group_to_multiset_ensures;
    lemma_sort_multiset(visible(l, ms));
    assert(snapshot(l, ms).to_multiset().count(snapshot(l, ms)[i]) > 0);
}

/// No entry of a snapshot has a hidden name, whatever order the listing came in.
pub proof fn lemma_snapshot_hides_dotted(l: Seq<ImageView>, ms: Seq<MachineView>)
    ensures
        forall|i: int| 0 <= i < snapshot(l, ms).len() ==> !is_hidden(#[trigger] snapshot(l, ms)[i].name),
{
    assert forall|i: int| 0 <= i < snapshot(l, ms).len() implies !is_hidden(#[trigger] snapshot(l, ms)[i].name) by {
        lemma_snapshot_entry(l, ms, i);
        lemma_visible_entries(l, ms, snapshot(l, ms)[i]);
    }
}

/// A snapshot is in name order and holds exactly the visible entries of the
/// listing; being a function of the listing and the running instances, two
/// refreshes over the same data give the same snapshot.
pub proof fn lemma_snapshot_sorted(l: Seq<ImageView>, ms: Seq<MachineView>)
    ensures
        sorted_by_name(snapshot(l, ms)),
        snapshot(l, ms).to_multiset() == visible(l, ms).to_multiset(),
{
    lemma_sort_sorted(visible(l, ms));
    lemma_sort_multiset(visible(l, ms));
}

/// An entry of a snapshot is running exactly when a running instance of the
/// same name was listed; the instance joined to it carries that name.
pub proof fn lemma_snapshot_running(l: Seq<ImageView>, ms: Seq<MachineView>)
    ensures
        forall|i: int| 0 <= i < snapshot(l, ms).len() ==> {
            let e = #[trigger] snapshot(l, ms)[i];
            &&& e.machine is Some <==> exists|k: int| 0 <= k < ms.len() && #[trigger] ms[k].name == e.name
            &&& e.machine is Some ==> e.machine->0.name == e.name && ms.contains(e.machine->0)
        },
{
    assert forall|i: int| 0 <= i < snapshot(l, ms).len() implies {
        let e = #[trigger] snapshot(l, ms)[i];
        &&& e.machine is Some <==> exists|k: int| 0 <= k < ms.len() && #[trigger] ms[k].name == e.name
        &&& e.machine is Some ==> e.machine->0.name == e.name && ms.contains(e.machine->0)
    } by {
        let e = snapshot(l, ms)[i];
        lemma_snapshot_entry(l, ms, i);
        lemma_visible_entries(l, ms, e);
        lemma_find_machine(ms, e.name);
    }
}

/// What removing entry `k` of a listing takes out of its visible entries.
proof fn lemma_visible_remove(l: Seq<ImageView>, ms: Seq<MachineView>, k: int)
    requires
        0 <= k < l.len(),
    ensures
        visible(l, ms).to_multiset() == if is_hidden(l[k].name) {
            visible(l.remove(k), ms).to_multiset()
        } else {
            visible(l.remove(k), ms).to_multiset().insert(joined(l[k], ms))
        },
    decreases l.len(),
{
    broadcast use vstd::seq_lib::group_to_multiset_ensures;
    let d = l.drop_last();
    if k == l.len() - 1 {
        assert(l.remove(k) =~= d);
    } else {
        lemma_visible_remove(d, ms, k);
        assert(l.remove(k) =~= d.remove(k).push(l.last()));
        assert(l.remove(k).drop_last() =~= d.remove(k));
        assert(d[k] == l[k]);
        let vr = visible(d.remove(k), ms).to_multiset();
        let jl = joined(l.last(), ms);
        let jk = joined(l[k], ms);
        assert(vr.insert(jk).insert(jl) =~= vr.insert(jl).insert(jk));
    }
}

/// Listings with the same entries, in any order, have the same visible entries.
proof fn lemma_visible_permutation(l1: Seq<ImageView>, l2: Seq<ImageView>, ms: Seq<MachineView>)
    requires
        l1.to_multiset() == l2.to_multiset(),
    ensures
        visible(l1, ms).to_multiset() == visible(l2, ms).to_multiset(),
    decreases l1.len(),
{
    broadcast use vstd::seq_lib::group_to_multiset_ensures;
    vstd::seq_lib::to_multiset_len(l1);
    vstd::seq_lib::to_multiset_len(l2);
    if l1.len() == 0 {
        assert(l2.len() == 0);
        assert(l2 =~= Seq::<ImageView>::empty());
    } else {
        let x = l1.last();
        assert(l1 =~= l1.drop_last().push(x));
        assert(l2.to_multiset().count(x) > 0);
        let k = choose|k: int| 0 <= k < l2.len() && l2[k] == x;
        vstd::seq_lib::to_multiset_remove(l2, k);
        assert(l1.drop_last().to_multiset() =~= l2.remove(k).to_multiset());
        lemma_visible_permutation(l1.drop_last(), l2.remove(k), ms);
        lemma_visible_remove(l2, ms, k);
    }
}

/// Entries that share a name are the same entry.
pub open spec fn names_identify(s: Seq<ImageView>) -> bool {
    forall|i: int, j: int| 0 <= i < s.len() && 0 <= j < s.len() && #[trigger] s[i].name == #[trigger] s[j].name ==> s[i] == s[j]
}

proof fn lemma_visible_from_listing(l: Seq<ImageView>, ms: Seq<MachineView>, y: ImageView)
    requires
        visible(l, ms).contains(y),
    ensures
        exists|i: int| 0 <= i < l.len() && y == joined(#[trigger] l[i], ms),
    decreases l.len(),
{
    let d = l.drop_last();
    if visible(d, ms).contains(y) {
        lemma_visible_from_listing(d, ms, y);
        let i = choose|i: int| 0 <= i < d.len() && y == joined(#[trigger] d[i], ms);
        assert(l[i] == d[i]);
    } else {
        assert(y == joined(l[l.len() - 1], ms));
    }
}

proof fn lemma_sorted_unique(s1: Seq<ImageView>, s2: Seq<ImageView>)
    requires
        sorted_by_name(s1),
        sorted_by_name(s2),
        s1.to_multiset() == s2.to_multiset(),
        names_identify(s1),
    ensures
        s1 == s2,
    decreases s1.len(),
{
    broadcast use vstd::seq_lib::group_to_multiset_ensures;
    vstd::seq_lib::to_multiset_len(s1);
    vstd::seq_lib::to_multiset_len(s2);
    if s1.len() == 0 {
        assert(s2.len() == 0);
        assert(s1 =~= s2);
    } else {
        assert(s2.len() == s1.len());
        let n = s1.len() - 1;
        let a = s1[n];
        let b = s2[n];
        assert(s1.to_multiset().count(b) > 0);
        assert(s2.to_multiset().count(a) > 0);
        let k = choose|k: int| 0 <= k < s1.len() && s1[k] == b;
        let m = choose|m: int| 0 <= m < s2.len() && s2[m] == a;
        if a.name != b.name {
            lemma_name_lt_total(a.name, b.name);
            if k < n {
                assert(!name_lt(s1[n].name, s1[k].name));
            }
            if m < n {
                assert(!name_lt(s2[n].name, s2[m].name));
            }
            if k == n {
                lemma_name_lt_irreflexive(a.name);
            }
            if m == n {
                lemma_name_lt_irreflexive(b.name);
            }
        }
        assert(s1[k].name == s1[n].name);
        assert(a == b);
        assert(s1 =~= s1.drop_last().push(a));
        assert(s2 =~= s2.drop_last().push(a));
        assert(s1.remove(n) =~= s1.drop_last());
        assert(s2.remove(n) =~= s2.drop_last());
        vstd::seq_lib::to_multiset_remove(s1, n);
        vstd::seq_lib::to_multiset_remove(s2, n);
        assert forall|i: int, j: int| 0 <= i < s1.drop_last().len() && 0 <= j < s1.drop_last().len() && #[trigger] s1.drop_last()[i].name
            == #[trigger] s1.drop_last()[j].name implies s1.drop_last()[i] == s1.drop_last()[j] by {
            assert(s1[i] == s1.drop_last()[i] && s1[j] == s1.drop_last()[j]);
        }
        lemma_sorted_unique(s1.drop_last(), s2.drop_last());
    }
}

/// The snapshot does not depend on the order in which the backend lists the
/// images, as long as entries that share a name are the same entry.
pub proof fn lemma_snapshot_order_independent(l1: Seq<ImageView>, l2: Seq<ImageView>, ms: Seq<MachineView>)
    requires
        l1.to_multiset() == l2.to_multiset(),
        names_identify(l1),
    ensures
        snapshot(l1, ms) == snapshot(l2, ms),
{
    lemma_visible_permutation(l1, l2, ms);
    lemma_snapshot_sorted(l1, ms);
    lemma_snapshot_sorted(l2, ms);
    let s1 = snapshot(l1, ms);
    assert forall|i: int, j: int| 0 <= i < s1.len() && 0 <= j < s1.len() && #[trigger] s1[i].name == #[trigger] s1[j].name implies s1[i] == s1[j] by {
        lemma_snapshot_entry(l1, ms, i);
        lemma_snapshot_entry(l1, ms, j);
        lemma_visible_from_listing(l1, ms, s1[i]);
        lemma_visible_from_listing(l1, ms, s1[j]);
        let a = choose|a: int| 0 <= a < l1.len() && s1[i] == joined(#[trigger] l1[a], ms);
        let b = choose|b: int| 0 <= b < l1.len() && s1[j] == joined(#[trigger] l1[b], ms);
        assert(l1[a].name == l1[b].name);
    }
    lemma_sorted_unique(s1, snapshot(l2, ms));
}

/// Looks up the running instance of an image by name: the last one listed.
pub fn find_running(ms: &Vec<Machine>, name: &String) -> (r: Option<Machine>)
    ensures
        match r {
            Some(m) => find_machine(machines_view(ms@), name@) == Some(m@),
            None => find_machine(machines_view(ms@), name@) is None,
        },
{
    let mut found: Option<Machine> = None;
    let mut i: usize = 0;
    while i < ms.len()
        invariant
            i <= ms.len(),
            match found {
                Some(m) => find_machine(machines_view(ms@.take(i as int)), name@) == Some(m@),
                None => find_machine(machines_view(ms@.take(i as int)), name@) is None,
            },
        decreases ms.len() - i,
    {
        assert(machines_view(ms@.take(i + 1)).drop_last() =~= machines_view(ms@.take(i as int)));
        if ms[i].name == *name {
            found = Some(ms[i].copy());
        }
        i = i + 1;
    }
    assert(ms@.take(ms.len() as int) =~= ms@);
    found
}

/// Copies a listed image and joins it with its running instance.
fn with_machine(img: &Image, machine: Option<Machine>) -> (r: Image)
    ensures
        r@ == (ImageView {
            machine: match machine {
                Some(m) => Some(m@),
                None => None,
            },
            ..img@
        }),
{
    Image {
        name: img.name.clone(),
        kind: img.kind.clone(),
        ro: img.ro,
        t_created: img.t_created,
        t_modified: img.t_modified,
        size: img.size,
        path: img.path.clone(),
        machine,
    }
}

/// Inserts an image after every entry whose name does not come after its own.
fn insert_sorted(out: &mut Vec<Image>, x: Image)
    ensures
        images_view(final(out)@) == insert_by_name(images_view(old(out)@), x@),
{
    let mut j: usize = out.len();
    while j > 0 && name_less(&x.name, &out[j - 1].name)
        invariant
            j <= out.len(),
            out@ == old(out)@,
            forall|k: int| j <= k < out.len() ==> name_lt(x.name@, #[trigger] out@[k].name@),
        decreases j,
    {
        j = j - 1;
    }
    proof {
        let sv = images_view(out@);
        assert forall|k: int| j <= k < sv.len() implies name_lt(x@.name, #[trigger] sv[k].name) by {
            assert(sv[k] == out@[k]@);
        }
        if j > 0 {
            assert(sv[j - 1] == out@[j - 1]@);
        }
        lemma_insert_at(sv, x@, j as int);
    }
    let ghost before = out@;
    out.insert(j, x);
    assert(images_view(out@) =~= images_view(before).insert(j as int, x@));
}

/// Rebuilds the snapshot from the backend's listing and running instances.
/// Without a listing (the backend call failed) the snapshot stays as it was
/// and `false` comes back; without running instances no image is running.
pub fn update_images(images: &mut Vec<Image>, machines: Option<Vec<Machine>>, listing: Option<Vec<Image>>) -> (r: bool)
    ensures
        r == listing is Some,
        match listing {
            Some(l) => images_view(final(images)@) == snapshot(
                images_view(l@),
                match machines {
                    Some(ms) => machines_view(ms@),
                    None => Seq::empty(),
                },
            ),
            None => final(images)@ == old(images)@,
        },
{
    let l = match listing {
        Some(l) => l,
        None => return false,
    };
    let ms: Vec<Machine> = match machines {
        Some(ms) => ms,
        None => Vec::new(),
    };
    proof {
        assert(machines_view(ms@) =~= match machines {
            Some(v) => machines_view(v@),
            None => Seq::<MachineView>::empty(),
        });
    }
    let ghost msv = machines_view(ms@);
    let mut out: Vec<Image> = Vec::new();
    let mut i: usize = 0;
    while i < l.len()
        invariant
            i <= l.len(),
            msv == machines_view(ms@),
            images_view(out@) == sort_by_name(visible(images_view(l@.take(i as int)), msv)),
        decreases l.len() - i,
    {
        let ghost lv = images_view(l@.take(i + 1));
        assert(lv.drop_last() =~= images_view(l@.take(i as int)));
        assert(lv.last() == l@[i as int]@);
        if !name_is_hidden(&l[i].name) {
            let m = find_running(&ms, &l[i].name);
            let x = with_machine(&l[i], m);
            let ghost rest = visible(images_view(l@.take(i as int)), msv);
            assert(x@ == joined(lv.last(), msv));
            assert(visible(lv, msv) == rest.push(x@));
            assert(rest.push(x@).drop_last() =~= rest);
            insert_sorted(&mut out, x);
        }
        i = i + 1;
    }
    assert(l@.take(l.len() as int) =~= l@);
    assert(images_view(out@) =~= images_view(out@));
    *images = out;
    true
}

} // verus!
