//! Reading the tables: single rows, and rows in the order in which they are shown.
//!
//! A listing gives the keys of rows. Names are in the order of their characters, which is that of the
//! bytes that encode them.

use crate::cloud::CloudAdapterPolicy;
use crate::ident::Uuid;
use crate::names::Role;
use crate::order::{earlier, first_of, insert_place, keep_first, ordered, Place};
use crate::repository::{
    AuthProvider, ControllerLease, Conversation, Device, EncryptedWorkflowArtifact,
    EncryptedWorkflowDefinition, Invitation, PrincipalRow, Repository, RepositoryView, TeamRecord,
    Template,
};
use crate::table::{lemma_one_more, Table};
use crate::text;
use vstd::prelude::*;

verus! {

// ------------------------------------------------------------------------------------------------
// The order of names

/// Whether a text comes before another, in the order of their characters.
pub open spec fn text_before(a: Seq<char>, b: Seq<char>) -> bool
    decreases a.len(),
{
    if b.len() == 0 {
        false
    } else if a.len() == 0 {
        true
    } else {
        a[0] < b[0] || (a[0] == b[0] && text_before(a.skip(1), b.skip(1)))
    }
}

/// Of two texts, one comes before the other unless they are the same, and never both.
pub proof fn lemma_text_order(a: Seq<char>, b: Seq<char>)
    ensures
        a == b || text_before(a, b) || text_before(b, a),
        text_before(a, b) ==> !text_before(b, a) && a != b,
    decreases a.len(),
{
    if a.len() > 0 && b.len() > 0 {
        if a[0] == b[0] {
            lemma_text_order(a.skip(1), b.skip(1));
            if a.skip(1) == b.skip(1) {
                assert(a =~= seq![a[0]] + a.skip(1));
                assert(b =~= seq![b[0]] + b.skip(1));
            }
        }
    } else if a.len() == 0 && b.len() == 0 {
        assert(a =~= b);
    }
}

/// What comes before a text comes before all that follow it.
pub proof fn lemma_text_chain(a: Seq<char>, b: Seq<char>, c: Seq<char>)
    requires
        text_before(a, b),
        text_before(b, c),
    ensures
        text_before(a, c),
    decreases a.len(),
{
    if a.len() > 0 && b.len() > 0 && c.len() > 0 && a[0] == b[0] && b[0] == c[0] {
        lemma_text_chain(a.skip(1), b.skip(1), c.skip(1));
    }
}

/// Whether a text comes before another.
pub fn comes_before(a: &str, b: &str) -> (r: bool)
    ensures
        r == text_before(a@, b@),
{
    let n: usize = a.unicode_len();
    let m: usize = b.unicode_len();
    let mut i: usize = 0;
    assert(a@.skip(0) =~= a@ && b@.skip(0) =~= b@);
    while i < n && i < m
        invariant
            n == a@.len(),
            m == b@.len(),
            i <= n,
            i <= m,
            text_before(a@.skip(i as int), b@.skip(i as int)) == text_before(a@, b@),
        decreases n - i,
    {
        let x: char = a.get_char(i);
        let y: char = b.get_char(i);
        proof {
            assert(a@.skip(i as int)[0] == x && b@.skip(i as int)[0] == y);
            assert(a@.skip(i as int).skip(1) =~= a@.skip(i + 1));
            assert(b@.skip(i as int).skip(1) =~= b@.skip(i + 1));
        }
        if x < y {
            return true;
        }
        if y < x {
            return false;
        }
        i += 1;
    }
    i < m
}

/// Whether a row with a name comes before another, by the names and then by the identifiers.
pub open spec fn row_before(a: (Seq<char>, u128), b: (Seq<char>, u128)) -> bool {
    text_before(a.0, b.0) || (a.0 == b.0 && a.1 < b.1)
}

proof fn lemma_row_order(a: (Seq<char>, u128), b: (Seq<char>, u128))
    ensures
        a == b || row_before(a, b) || row_before(b, a),
        row_before(a, b) ==> !row_before(b, a),
{
    lemma_text_order(a.0, b.0);
    lemma_text_order(b.0, a.0);
}

proof fn lemma_row_chain(a: (Seq<char>, u128), b: (Seq<char>, u128), c: (Seq<char>, u128))
    requires
        row_before(a, b),
        row_before(b, c),
    ensures
        row_before(a, c),
{
    if text_before(a.0, b.0) && text_before(b.0, c.0) {
        lemma_text_chain(a.0, b.0, c.0);
    }
}

/// A row that has a name.
pub trait Named: Sized {
    spec fn name_view(&self) -> Seq<char>;

    /// The name.
    fn shown_name(&self) -> (r: &str)
        ensures
            r@ == self.name_view(),
    ;
}

impl Named for Device {
    open spec fn name_view(&self) -> Seq<char> {
        self.node.name@
    }

    fn shown_name(&self) -> (r: &str) {
        self.node.name.as_str()
    }
}

impl Named for EncryptedWorkflowDefinition {
    open spec fn name_view(&self) -> Seq<char> {
        self.name@
    }

    fn shown_name(&self) -> (r: &str) {
        self.name.as_str()
    }
}

impl Named for TeamRecord {
    open spec fn name_view(&self) -> Seq<char> {
        self.name@
    }

    fn shown_name(&self) -> (r: &str) {
        self.name.as_str()
    }
}

impl Named for Template {
    open spec fn name_view(&self) -> Seq<char> {
        self.name@
    }

    fn shown_name(&self) -> (r: &str) {
        self.name.as_str()
    }
}

impl Named for PrincipalRow {
    open spec fn name_view(&self) -> Seq<char> {
        self.name@
    }

    fn shown_name(&self) -> (r: &str) {
        self.name.as_str()
    }
}

/// Whether a row has a name.
pub open spec fn has_name<V: Named>(rows: Map<u128, V>, name: Seq<char>) -> bool {
    exists|id: u128| #[trigger] rows.contains_key(id) && rows[id].name_view() == name
}

/// Whether no two rows have the same name.
pub open spec fn names_differ<V: Named>(rows: Map<u128, V>) -> bool {
    forall|a: u128, b: u128|
        #![trigger rows[a], rows[b]]
        rows.contains_key(a) && rows.contains_key(b) && rows[a].name_view() == rows[b].name_view()
            ==> a == b
}

/// Whether a row has a name.
pub fn name_taken<V: Named>(table: &Table<u128, V>, name: &str) -> (r: bool)
    ensures
        r == has_name(table@, name@),
{
    let n: usize = table.len();
    let ghost keys = table.keys();
    let mut i: usize = 0;
    while i < n
        invariant
            i <= n == keys.len(),
            keys == table.keys(),
            forall|k: u128| table@.contains_key(k) == #[trigger] keys.contains(k),
            forall|j: int| 0 <= j < i ==> table@[#[trigger] keys[j]].name_view() != name@,
        decreases n - i,
    {
        assert(keys.contains(keys[i as int]));
        if crate::text::same(table.row_at(i).shown_name(), name) {
            return true;
        }
        i += 1;
    }
    assert forall|id: u128| #[trigger] table@.contains_key(id) implies table@[id].name_view() != name@ by {
        assert(keys.contains(id));
        let j = choose|j: int| 0 <= j < keys.len() && keys[j] == id;
        assert(table@[keys[j]].name_view() != name@);
    }
    false
}

/// Names that differ still differ after a row was stored under a name that no other has.
pub proof fn law_names_stay_unique<V: Named>(rows: Map<u128, V>, id: u128, row: V)
    requires
        names_differ(rows),
        !has_name(rows, row.name_view()),
    ensures
        names_differ(rows.insert(id, row)),
{
    let after = rows.insert(id, row);
    assert forall|a: u128, b: u128|
        #![trigger after[a], after[b]]
        after.contains_key(a) && after.contains_key(b) && after[a].name_view()
            == after[b].name_view() implies a == b by {
        if a != id && b != id {
            assert(rows[a] == after[a] && rows[b] == after[b]);
        } else if a != b {
            let other = if a == id {
                b
            } else {
                a
            };
            assert(rows.contains_key(other));
        }
    }
}

/// The name of a row and its identifier.
pub open spec fn named<V: Named>(rows: Map<u128, V>, id: u128) -> (Seq<char>, u128) {
    (rows[id].name_view(), id)
}

/// Whether identifiers list all rows of a table by their names, each once.
pub open spec fn lists_by_name<V: Named>(rows: Map<u128, V>, ids: Seq<u128>) -> bool {
    &&& forall|i: int, j: int|
        0 <= i < j < ids.len() ==> row_before(named(rows, ids[i]), named(rows, ids[j]))
    &&& forall|id: u128| #[trigger] rows.contains_key(id) == ids.contains(id)
}

/// All rows of a table by their names.
pub fn by_name<V: Named>(table: &Table<u128, V>) -> (ids: Vec<Uuid>)
    ensures
        lists_by_name(table@, ids@),
{
    let n: usize = table.len();
    let ghost keys = table.keys();
    let mut ids: Vec<Uuid> = Vec::new();
    let mut i: usize = 0;
    while i < n
        invariant
            i <= n == keys.len(),
            keys == table.keys(),
            keys.no_duplicates(),
            forall|k: u128| table@.contains_key(k) == #[trigger] keys.contains(k),
            forall|a: int, b: int|
                0 <= a < b < ids@.len() ==> row_before(
                    named(table@, ids@[a]),
                    named(table@, ids@[b]),
                ),
            forall|k: u128| #[trigger] ids@.contains(k) == keys.take(i as int).contains(k),
        decreases n - i,
    {
        let id: u128 = *table.key_at(i);
        proof {
            lemma_one_more(keys, i as int);
            assert(keys.contains(keys[i as int]));
        }
        let row = table.row_at(i);
        let mut at: usize = ids.len();
        while at > 0
            invariant
                at <= ids@.len(),
                *row == table@[id],
                table@.contains_key(id),
                forall|k: u128| table@.contains_key(k) == #[trigger] keys.contains(k),
                keys == table.keys(),
                forall|k: u128| #[trigger] ids@.contains(k) == keys.take(i as int).contains(k),
                i < keys.len(),
                forall|j: int|
                    at <= j < ids@.len() ==> row_before(
                        named(table@, id),
                        named(table@, #[trigger] ids@[j]),
                    ),
            ensures
                at <= ids@.len(),
                forall|j: int|
                    at <= j < ids@.len() ==> row_before(
                        named(table@, id),
                        named(table@, #[trigger] ids@[j]),
                    ),
                at > 0 ==> !row_before(named(table@, id), named(table@, ids@[at - 1])),
            decreases at,
        {
            let other: u128 = ids[at - 1];
            proof {
                assert(ids@.contains(other));
                assert(keys.contains(other)) by {
                    let j = choose|j: int|
                        0 <= j < keys.take(i as int).len() && keys.take(i as int)[j] == other;
                    assert(keys[j] == other);
                }
            }
            let before: bool = match table.get(&other) {
                Some(known) => comes_before(row.shown_name(), known.shown_name()) || (text::same(
                    row.shown_name(),
                    known.shown_name(),
                ) && id < other),
                None => false,
            };
            if !before {
                break;
            }
            at -= 1;
        }
        let ghost before = ids@;
        ids.insert(at, id);
        proof {
            let after = ids@;
            assert(after == before.insert(at as int, id));
            assert(!before.contains(id));
            lemma_inserted(table@, before, at as int, id);
            assert forall|k: u128| #[trigger] after.contains(k) == keys.take(i + 1).contains(k) by {
                lemma_insert_contains(before, at as int, id, k);
            }
        }
        i += 1;
    }
    assert(keys.take(n as int) =~= keys);
    ids
}

/// What holds an element after one was put in.
proof fn lemma_insert_contains(before: Seq<u128>, at: int, id: u128, k: u128)
    requires
        0 <= at <= before.len(),
    ensures
        before.insert(at, id).contains(k) == (before.contains(k) || k == id),
{
    let after = before.insert(at, id);
    if after.contains(k) {
        let i = choose|i: int| 0 <= i < after.len() && after[i] == k;
        if i < at {
            assert(before[i] == k);
        } else if i > at {
            assert(before[i - 1] == k);
        }
    }
    if before.contains(k) {
        let i = choose|i: int| 0 <= i < before.len() && before[i] == k;
        if i < at {
            assert(after[i] == k);
        } else {
            assert(after[i + 1] == k);
        }
    }
    assert(after[at] == id);
}

/// Rows stay in order where one is put in after those that do not come later and before those that do.
proof fn lemma_inserted<V: Named>(rows: Map<u128, V>, before: Seq<u128>, at: int, id: u128)
    requires
        0 <= at <= before.len(),
        !before.contains(id),
        forall|a: int, b: int|
            0 <= a < b < before.len() ==> row_before(named(rows, before[a]), named(rows, before[b])),
        forall|j: int|
            at <= j < before.len() ==> row_before(named(rows, id), named(rows, #[trigger] before[j])),
        at > 0 ==> !row_before(named(rows, id), named(rows, before[at - 1])),
    ensures
        forall|a: int, b: int|
            0 <= a < b < before.len() + 1 ==> row_before(
                named(rows, before.insert(at, id)[a]),
                named(rows, before.insert(at, id)[b]),
            ),
{
    let after = before.insert(at, id);
    assert forall|a: int, b: int| 0 <= a < b < after.len() implies row_before(
        named(rows, after[a]),
        named(rows, after[b]),
    ) by {
        let x = if a < at {
            a
        } else {
            a - 1
        };
        let y = if b < at {
            b
        } else {
            b - 1
        };
        if a != at && b != at {
            assert(after[a] == before[x] && after[b] == before[y]);
        } else if a == at {
            assert(after[b] == before[y]);
        } else {
            assert(after[a] == before[x]);
            let last = before[at - 1];
            assert(before.contains(last));
            lemma_row_order(named(rows, id), named(rows, last));
            if x < at - 1 {
                lemma_row_chain(named(rows, before[x]), named(rows, last), named(rows, id));
            }
        }
    }
}

// ------------------------------------------------------------------------------------------------
// The order of identifiers and of moments

/// Whether identifiers list all rows of a table in their own order.
pub open spec fn lists_by_id<V>(rows: Map<u128, V>, ids: Seq<u128>) -> bool {
    &&& forall|i: int, j: int| 0 <= i < j < ids.len() ==> ids[i] < ids[j]
    &&& forall|id: u128| #[trigger] rows.contains_key(id) == ids.contains(id)
}

/// The places at which rows stand that are ordered by their identifiers alone.
pub fn by_id<V>(table: &Table<u128, V>) -> (ids: Vec<Uuid>)
    ensures
        lists_by_id(table@, ids@),
{
    let n: usize = table.len();
    let ghost keys = table.keys();
    let mut ids: Vec<Uuid> = Vec::new();
    let mut i: usize = 0;
    while i < n
        invariant
            i <= n == keys.len(),
            keys == table.keys(),
            keys.no_duplicates(),
            forall|k: u128| table@.contains_key(k) == #[trigger] keys.contains(k),
            forall|a: int, b: int| 0 <= a < b < ids@.len() ==> ids@[a] < ids@[b],
            forall|k: u128| #[trigger] ids@.contains(k) == keys.take(i as int).contains(k),
        decreases n - i,
    {
        let id: u128 = *table.key_at(i);
        proof {
            lemma_one_more(keys, i as int);
        }
        insert_id(&mut ids, id);
        i += 1;
    }
    assert(keys.take(n as int) =~= keys);
    ids
}

/// Puts a new identifier where it belongs.
fn insert_id(ids: &mut Vec<Uuid>, id: Uuid)
    requires
        forall|a: int, b: int| 0 <= a < b < old(ids)@.len() ==> old(ids)@[a] < old(ids)@[b],
        !old(ids)@.contains(id),
    ensures
        forall|a: int, b: int| 0 <= a < b < final(ids)@.len() ==> final(ids)@[a] < final(ids)@[b],
        forall|k: u128| #[trigger] final(ids)@.contains(k) == (old(ids)@.contains(k) || k == id),
{
    let mut at: usize = ids.len();
    while at > 0
        invariant
            at <= ids@.len(),
            ids@ == old(ids)@,
            forall|j: int| at <= j < ids@.len() ==> id < #[trigger] ids@[j],
        ensures
            at <= ids@.len(),
            ids@ == old(ids)@,
            forall|j: int| at <= j < ids@.len() ==> id < #[trigger] ids@[j],
            at > 0 ==> id >= ids@[at - 1],
        decreases at,
    {
        if id >= ids[at - 1] {
            break;
        }
        at -= 1;
    }
    let ghost before = ids@;
    ids.insert(at, id);
    proof {
        let after = ids@;
        assert(after == before.insert(at as int, id));
        assert forall|k: u128| #[trigger] after.contains(k) == (before.contains(k) || k == id) by {
            lemma_insert_contains(before, at as int, id, k);
        }
        if at > 0 {
            assert(before.contains(before[at - 1]));
        }
        assert forall|a: int, b: int| 0 <= a < b < after.len() implies after[a] < after[b] by {
            let x = if a < at {
                a
            } else {
                a - 1
            };
            let y = if b < at {
                b
            } else {
                b - 1
            };
            if a != at && b != at {
                assert(after[a] == before[x] && after[b] == before[y]);
            } else if a == at {
                assert(after[b] == before[y]);
            } else {
                assert(after[a] == before[x]);
                assert(before[x] <= before[at - 1]);
            }
        }
    }
}

/// A row that has a moment by which it is shown.
pub trait Dated: Sized {
    spec fn date_view(&self) -> i128;

    /// The moment.
    fn shown_date(&self) -> (r: i128)
        ensures
            r == self.date_view(),
    ;
}

impl Dated for Invitation {
    open spec fn date_view(&self) -> i128 {
        self.created_at
    }

    fn shown_date(&self) -> (r: i128) {
        self.created_at
    }
}

impl Dated for Conversation {
    open spec fn date_view(&self) -> i128 {
        self.updated_at
    }

    fn shown_date(&self) -> (r: i128) {
        self.updated_at
    }
}

/// Whether identifiers list all rows of a table, each once and the newest first.
pub open spec fn lists_newest_first<V: Dated>(rows: Map<u128, V>, ids: Seq<u128>) -> bool {
    &&& forall|i: int, j: int|
        0 <= i < j < ids.len() ==> rows[ids[i]].date_view() >= rows[ids[j]].date_view() && ids[i]
            != ids[j]
    &&& forall|id: u128| #[trigger] rows.contains_key(id) == ids.contains(id)
}

/// All rows of a table, the newest first.
pub fn newest_first<V: Dated>(table: &Table<u128, V>) -> (ids: Vec<Uuid>)
    ensures
        lists_newest_first(table@, ids@),
{
    let n: usize = table.len();
    let ghost keys = table.keys();
    let mut places: Vec<Place> = Vec::new();
    let mut i: usize = 0;
    while i < n
        invariant
            i <= n == keys.len(),
            keys == table.keys(),
            keys.no_duplicates(),
            forall|k: u128| table@.contains_key(k) == #[trigger] keys.contains(k),
            ordered(places@),
            forall|p: Place| #[trigger]
                places@.contains(p) == (keys.take(i as int).contains(p.1) && p.0
                    == table@[p.1].date_view()),
        decreases n - i,
    {
        let id: u128 = *table.key_at(i);
        let row = table.row_at(i);
        proof {
            lemma_one_more(keys, i as int);
            assert(keys.contains(keys[i as int]));
        }
        insert_place(&mut places, (row.shown_date(), id));
        i += 1;
    }
    assert(keys.take(n as int) =~= keys);
    let mut ids: Vec<Uuid> = Vec::new();
    let mut left: usize = places.len();
    while left > 0
        invariant
            left <= places@.len(),
            ordered(places@),
            forall|p: Place| #[trigger]
                places@.contains(p) == (table@.contains_key(p.1) && p.0
                    == table@[p.1].date_view()),
            ids@.len() == places@.len() - left,
            forall|j: int|
                0 <= j < ids@.len() ==> #[trigger] ids@[j] == places@[places@.len() - 1 - j].1,
        decreases left,
    {
        left -= 1;
        ids.push(places[left].1);
    }
    proof {
        assert forall|i: int, j: int| 0 <= i < j < ids@.len() implies table@[ids@[i]].date_view()
            >= table@[ids@[j]].date_view() && ids@[i] != ids@[j] by {
            let x = places@[places@.len() - 1 - i];
            let y = places@[places@.len() - 1 - j];
            assert(places@.contains(x) && places@.contains(y));
            assert(earlier(y, x));
        }
        assert forall|id: u128| #[trigger] table@.contains_key(id) == ids@.contains(id) by {
            if table@.contains_key(id) {
                let p: Place = (table@[id].date_view(), id);
                assert(places@.contains(p));
                let j = choose|j: int| 0 <= j < places@.len() && places@[j] == p;
                assert(ids@[places@.len() - 1 - j] == id);
            }
            if ids@.contains(id) {
                let j = choose|j: int| 0 <= j < ids@.len() && ids@[j] == id;
                assert(places@.contains(places@[places@.len() - 1 - j]));
            }
        }
    }
    ids
}

/// Where the spans of a workload's trace stand.
pub open spec fn span_places(v: RepositoryView, workload_id: Uuid) -> Set<Place> {
    Set::new(
        |p: Place|
            v.spans.contains_key(p.1) && v.spans[p.1].workload_id == workload_id
                && v.spans[p.1].started_at == p.0,
    )
}

/// How many spans of a trace are shown.
pub const SPAN_LIMIT: usize = 10_000;

impl Repository {
    /// The nodes by their names.
    pub fn list_nodes(&self) -> (ids: Vec<Uuid>)
        ensures
            lists_by_name(self@.nodes, ids@),
    {
        by_name(&self.nodes)
    }

    /// The workflows by their names.
    pub fn workflows(&self) -> (ids: Vec<Uuid>)
        ensures
            lists_by_name(self@.workflows, ids@),
    {
        by_name(&self.workflows)
    }

    /// The templates by their names.
    pub fn workflow_templates(&self) -> (ids: Vec<Uuid>)
        ensures
            lists_by_name(self@.templates, ids@),
    {
        by_name(&self.templates)
    }

    /// The principals by their names.
    pub fn principals(&self) -> (ids: Vec<Uuid>)
        ensures
            lists_by_name(self@.principals, ids@),
    {
        by_name(&self.principals)
    }

    /// The teams by their names.
    pub fn teams(&self) -> (ids: Vec<Uuid>)
        ensures
            lists_by_name(self@.teams, ids@),
    {
        by_name(&self.teams)
    }

    /// The cloud policies by their identifiers.
    pub fn cloud_policies(&self) -> (ids: Vec<Uuid>)
        ensures
            lists_by_id(self@.cloud_policies, ids@),
    {
        by_id(&self.cloud_policies)
    }

    /// The authentication providers by their identifiers.
    pub fn auth_providers(&self) -> (ids: Vec<Uuid>)
        ensures
            lists_by_id(self@.auth_providers, ids@),
    {
        by_id(&self.auth_providers)
    }

    /// The nodes that were measured.
    pub fn benchmarks(&self) -> (ids: Vec<Uuid>)
        ensures
            lists_by_id(self@.benchmarks, ids@),
    {
        by_id(&self.benchmarks)
    }

    /// The nodes that have a policy of their own.
    pub fn resource_policies(&self) -> (ids: Vec<Uuid>)
        ensures
            lists_by_id(self@.resource_policies, ids@),
    {
        by_id(&self.resource_policies)
    }

    /// The invitations, the newest first.
    pub fn invitation_statuses(&self) -> (ids: Vec<Uuid>)
        ensures
            lists_newest_first(self@.invitations, ids@),
    {
        newest_first(&self.invitations)
    }

    /// The conversations, the one that changed last first.
    pub fn conversations(&self) -> (ids: Vec<Uuid>)
        ensures
            lists_newest_first(self@.conversations, ids@),
    {
        newest_first(&self.conversations)
    }

    /// The members of a team by their identifiers.
    pub fn team_memberships(&self, team_id: Uuid) -> (members: Vec<Uuid>)
        ensures
            forall|i: int, j: int| 0 <= i < j < members@.len() ==> members@[i] < members@[j],
            forall|id: u128| #[trigger]
                members@.contains(id) == self@.memberships.contains_key((team_id, id)),
    {
        let n: usize = self.memberships.len();
        let ghost keys = self.memberships.keys();
        let mut members: Vec<Uuid> = Vec::new();
        let mut i: usize = 0;
        while i < n
            invariant
                i <= n == keys.len(),
                keys == self.memberships.keys(),
                keys.no_duplicates(),
                forall|k: (u128, u128)|
                    self.memberships@.contains_key(k) == #[trigger] keys.contains(k),
                forall|a: int, b: int| 0 <= a < b < members@.len() ==> members@[a] < members@[b],
                forall|id: u128| #[trigger]
                    members@.contains(id) == keys.take(i as int).contains((team_id, id)),
            decreases n - i,
        {
            let key: (u128, u128) = *self.memberships.key_at(i);
            proof {
                lemma_one_more(keys, i as int);
            }
            if key.0 == team_id {
                insert_id(&mut members, key.1);
            }
            i += 1;
        }
        assert(keys.take(n as int) =~= keys);
        members
    }

    /// The role of a member of a team.
    pub fn team_role(&self, team_id: Uuid, principal_id: Uuid) -> (r: Option<Role>)
        ensures
            r == (if self@.memberships.contains_key((team_id, principal_id)) {
                Some(self@.memberships[(team_id, principal_id)])
            } else {
                None
            }),
    {
        match self.memberships.get(&(team_id, principal_id)) {
            Some(role) => Some(*role),
            None => None,
        }
    }

    /// The first spans of a workload's trace, the earliest first, and at most ten thousand.
    pub fn trace_spans(&self, workload_id: Uuid) -> (places: Vec<Place>)
        ensures
            first_of(span_places(self@, workload_id), SPAN_LIMIT as int, places@),
    {
        let n: usize = self.spans.len();
        let ghost keys = self.spans.keys();
        let mut places: Vec<Place> = Vec::new();
        let mut i: usize = 0;
        while i < n
            invariant
                i <= n == keys.len(),
                keys == self.spans.keys(),
                keys.no_duplicates(),
                forall|k: u128| self.spans@.contains_key(k) == #[trigger] keys.contains(k),
                ordered(places@),
                forall|p: Place| #[trigger]
                    places@.contains(p) == (span_places(self@, workload_id).contains(p)
                        && keys.take(i as int).contains(p.1)),
            decreases n - i,
        {
            let id: u128 = *self.spans.key_at(i);
            let span = self.spans.row_at(i);
            proof {
                lemma_one_more(keys, i as int);
                assert(keys.contains(keys[i as int]));
            }
            if span.workload_id == workload_id {
                insert_place(&mut places, (span.started_at, id));
            }
            i += 1;
        }
        assert(keys.take(n as int) =~= keys);
        proof {
            assert(places@.to_set() =~= span_places(self@, workload_id)) by {
                assert forall|p: Place| places@.to_set().contains(p) == #[trigger] span_places(
                    self@,
                    workload_id,
                ).contains(p) by {
                    assert(places@.contains(p) == places@.to_set().contains(p));
                    if span_places(self@, workload_id).contains(p) {
                        assert(self.spans@.contains_key(p.1));
                        assert(keys.contains(p.1));
                    }
                }
            }
        }
        keep_first(&mut places, SPAN_LIMIT);
        places
    }

    /// The installed plugins by their identifiers.
    pub fn plugins(&self) -> (ids: Vec<String>)
        ensures
            forall|i: int, j: int|
                0 <= i < j < ids@.len() ==> text_before(ids@[i]@, ids@[j]@),
            forall|id: Seq<char>| #[trigger]
                self@.plugins.contains_key(id) == (exists|i: int|
                    0 <= i < ids@.len() && (#[trigger] ids@[i])@ == id),
    {
        let n: usize = self.plugins.len();
        let ghost keys = self.plugins.keys();
        let mut ids: Vec<String> = Vec::new();
        let mut i: usize = 0;
        while i < n
            invariant
                i <= n == keys.len(),
                keys == self.plugins.keys(),
                keys.no_duplicates(),
                forall|k: Seq<char>| self.plugins@.contains_key(k) == #[trigger] keys.contains(k),
                forall|a: int, b: int|
                    0 <= a < b < ids@.len() ==> text_before(ids@[a]@, ids@[b]@),
                forall|k: Seq<char>| #[trigger]
                    keys.take(i as int).contains(k) == (exists|j: int|
                        0 <= j < ids@.len() && (#[trigger] ids@[j])@ == k),
            decreases n - i,
        {
            let id = self.plugins.key_at(i);
            proof {
                lemma_one_more(keys, i as int);
            }
            let mut at: usize = ids.len();
            while at > 0
                invariant
                    at <= ids@.len(),
                    forall|j: int| at <= j < ids@.len() ==> text_before(id@, (#[trigger] ids@[j])@),
                ensures
                    at <= ids@.len(),
                    forall|j: int| at <= j < ids@.len() ==> text_before(id@, (#[trigger] ids@[j])@),
                    at > 0 ==> !text_before(id@, ids@[at - 1]@),
                decreases at,
            {
                if !comes_before(id.as_str(), ids[at - 1].as_str()) {
                    break;
                }
                at -= 1;
            }
            let ghost before = ids@;
            ids.insert(at, text::owned(id.as_str()));
            proof {
                let after = ids@;
                assert(forall|j: int| 0 <= j < at ==> after[j] == before[j]);
                assert(forall|j: int| at < j < after.len() ==> after[j] == before[j - 1]);
                assert(after[at as int]@ == id@);
                if at > 0 {
                    lemma_text_order(id@, before[at - 1]@);
                    assert(id@ != before[at - 1]@) by {
                        if id@ == before[at - 1]@ {
                            assert(keys.take(i as int).contains(id@));
                        }
                    }
                }
                assert forall|a: int, b: int| 0 <= a < b < after.len() implies text_before(
                    after[a]@,
                    after[b]@,
                ) by {
                    if b == at && a < at - 1 {
                        assert(text_before(before[a]@, before[at - 1]@));
                        lemma_text_chain(before[a]@, before[at - 1]@, id@);
                    }
                }
                assert forall|k: Seq<char>| #[trigger] keys.take(i + 1).contains(k) == (exists|j: int|
                    0 <= j < after.len() && (#[trigger] after[j])@ == k) by {
                    assert(keys.take(i + 1).contains(k) == (keys.take(i as int).contains(k) || k
                        == keys[i as int]));
                    if keys.take(i as int).contains(k) {
                        let j = choose|j: int| 0 <= j < before.len() && (#[trigger] before[j])@ == k;
                        if j < at {
                            assert(after[j]@ == k);
                        } else {
                            assert(after[j + 1]@ == k);
                        }
                    }
                    if exists|j: int| 0 <= j < after.len() && (#[trigger] after[j])@ == k {
                        let j = choose|j: int| 0 <= j < after.len() && (#[trigger] after[j])@ == k;
                        if j < at {
                            assert(before[j]@ == k);
                        } else if j > at {
                            assert(before[j - 1]@ == k);
                        }
                    }
                }
            }
            i += 1;
        }
        assert(keys.take(n as int) =~= keys);
        ids
    }

    /// An artifact of a run.
    pub fn workflow_artifact(&self, artifact_id: Uuid) -> (r: Option<&EncryptedWorkflowArtifact>)
        ensures
            r is Some == self@.artifacts.contains_key(artifact_id),
            r matches Some(artifact) ==> *artifact == self@.artifacts[artifact_id],
    {
        self.artifacts.get(&artifact_id)
    }

    /// A template of the catalog.
    pub fn workflow_template(&self, template_id: Uuid) -> (r: Option<&Template>)
        ensures
            r is Some == self@.templates.contains_key(template_id),
            r matches Some(template) ==> *template == self@.templates[template_id],
    {
        self.templates.get(&template_id)
    }

    /// A cloud policy.
    pub fn cloud_policy(&self, id: Uuid) -> (r: Option<&CloudAdapterPolicy>)
        ensures
            r is Some == self@.cloud_policies.contains_key(id),
            r matches Some(policy) ==> *policy == self@.cloud_policies[id],
    {
        self.cloud_policies.get(&id)
    }

    /// An authentication provider.
    pub fn auth_provider(&self, id: Uuid) -> (r: Option<&AuthProvider>)
        ensures
            r is Some == self@.auth_providers.contains_key(id),
            r matches Some(provider) ==> *provider == self@.auth_providers[id],
    {
        self.auth_providers.get(&id)
    }

    /// Who holds the controller's lease, and until when.
    pub fn controller_lease(&self) -> (r: Option<ControllerLease>)
        ensures
            r == self@.controller,
    {
        self.controller
    }
}

/// There is only one listing by name.
pub proof fn law_a_listing_by_name_is_determined<V: Named>(
    rows: Map<u128, V>,
    a: Seq<u128>,
    b: Seq<u128>,
)
    requires
        lists_by_name(rows, a),
        lists_by_name(rows, b),
    ensures
        a == b,
{
    lemma_listings_agree(rows, a, b, if a.len() < b.len() {
        a.len() as int
    } else {
        b.len() as int
    });
    if a.len() < b.len() {
        lemma_listing_is_whole(rows, a, b);
    }
    if b.len() < a.len() {
        lemma_listing_is_whole(rows, b, a);
    }
    assert(a =~= b) by {
        let n = a.len() as int;
        assert(a.take(n) =~= a && b.take(n) =~= b);
    }
}

/// A listing does not stop where another goes on.
proof fn lemma_listing_is_whole<V: Named>(rows: Map<u128, V>, short: Seq<u128>, long: Seq<u128>)
    requires
        lists_by_name(rows, short),
        lists_by_name(rows, long),
        short.len() <= long.len(),
        short.take(short.len() as int) == long.take(short.len() as int),
    ensures
        short.len() == long.len(),
{
    if short.len() < long.len() {
        let n = short.len() as int;
        let id = long[n];
        assert(long.contains(id));
        assert(rows.contains_key(id));
        let i = choose|i: int| 0 <= i < short.len() && short[i] == id;
        assert(short.take(n)[i] == long.take(n)[i]);
        assert(long[i] == id);
        assert(row_before(named(rows, long[i]), named(rows, long[n])));
        lemma_row_order(named(rows, id), named(rows, id));
    }
}

/// Two listings agree as far as both go.
proof fn lemma_listings_agree<V: Named>(rows: Map<u128, V>, a: Seq<u128>, b: Seq<u128>, n: int)
    requires
        lists_by_name(rows, a),
        lists_by_name(rows, b),
        0 <= n <= a.len(),
        n <= b.len(),
    ensures
        a.take(n) == b.take(n),
    decreases n,
{
    if n > 0 {
        lemma_listings_agree(rows, a, b, n - 1);
        let k = n - 1;
        assert forall|i: int| 0 <= i < k implies a[i] == #[trigger] b[i] by {
            assert(a.take(k)[i] == b.take(k)[i]);
        }
        lemma_no_earlier_row(rows, a, b, k);
        lemma_no_earlier_row(rows, b, a, k);
        lemma_row_order(named(rows, a[k]), named(rows, b[k]));
        assert(a.take(n) =~= b.take(n));
    }
}

/// Where two listings first differ, neither row can come before the other.
proof fn lemma_no_earlier_row<V: Named>(rows: Map<u128, V>, a: Seq<u128>, b: Seq<u128>, k: int)
    requires
        lists_by_name(rows, a),
        lists_by_name(rows, b),
        0 <= k < a.len(),
        k < b.len(),
        forall|i: int| 0 <= i < k ==> a[i] == #[trigger] b[i],
    ensures
        !row_before(named(rows, a[k]), named(rows, b[k])),
{
    let id = a[k];
    assert(a.contains(id));
    assert(rows.contains_key(id));
    let i = choose|i: int| 0 <= i < b.len() && b[i] == id;
    if i < k {
        assert(a[i] == b[i]);
        assert(row_before(named(rows, a[i]), named(rows, a[k])));
        lemma_row_order(named(rows, id), named(rows, id));
    } else if i > k {
        assert(row_before(named(rows, b[k]), named(rows, b[i])));
        lemma_row_order(named(rows, b[k]), named(rows, b[i]));
    } else {
        lemma_row_order(named(rows, id), named(rows, id));
    }
}

/// Names are ordered as in a dictionary: what two of them share does not matter, the first character that
/// differs decides, and a name that goes on comes later.
pub proof fn law_names_are_ordered(shared: Seq<char>, a: Seq<char>, b: Seq<char>)
    ensures
        text_before(shared + a, shared + b) == text_before(a, b),
        a.len() > 0 && b.len() > 0 && a[0] < b[0] ==> text_before(a, b),
        a.len() > 0 && b.len() > 0 && a[0] > b[0] ==> !text_before(a, b),
        b.len() > 0 ==> text_before(shared, shared + b),
        !text_before(shared + a, shared),
        !text_before(a, a),
    decreases shared.len() + a.len(),
{
    if shared.len() > 0 {
        law_names_are_ordered(shared.skip(1), a, b);
        assert((shared + a).skip(1) =~= shared.skip(1) + a);
        assert((shared + b).skip(1) =~= shared.skip(1) + b);
    } else {
        assert(shared + a =~= a);
        assert(shared + b =~= b);
        if a.len() > 0 {
            law_names_are_ordered(shared, a.skip(1), b);
        }
    }
}

} // verus!
