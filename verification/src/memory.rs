//! Long-term memory: typed user facts with an ACTIVE / STALE / UNKNOWN status,
//! a fact table with at most one active row per slot, and the system-prompt
//! section rendered from it.
use crate::text::{lemma_push_contains, lowercase, str_eq, to_lowercase};
use vstd::string::StringExecFns;
use vstd::prelude::*;

verus! {

/// The four memory buckets.
#[derive(Debug, Clone, Copy, PartialEq, Eq, Structural)]
pub enum FactKind {
    Profile,
    Concept,
    State,
    Behavioral,
}

/// Stored name of a kind.
pub open spec fn kind_name(k: FactKind) -> Seq<char> {
    match k {
        FactKind::Profile => "profile"@,
        FactKind::Concept => "concept"@,
        FactKind::State => "state"@,
        FactKind::Behavioral => "behavioral"@,
    }
}

/// The kind named by an already-lowercased word.
pub open spec fn kind_of_word(w: Seq<char>) -> Option<FactKind> {
    if w == "profile"@ {
        Some(FactKind::Profile)
    } else if w == "concept"@ {
        Some(FactKind::Concept)
    } else if w == "state"@ {
        Some(FactKind::State)
    } else if w == "behavioral"@ || w == "behavior"@ {
        Some(FactKind::Behavioral)
    } else {
        None
    }
}

/// Position of a kind when rows are ordered by their stored name.
pub open spec fn kind_rank(k: FactKind) -> int {
    match k {
        FactKind::Behavioral => 0,
        FactKind::Concept => 1,
        FactKind::Profile => 2,
        FactKind::State => 3,
    }
}

impl FactKind {
    pub fn as_str(self) -> (r: &'static str)
        ensures
            r@ == kind_name(self),
    {
        match self {
            FactKind::Profile => "profile",
            FactKind::Concept => "concept",
            FactKind::State => "state",
            FactKind::Behavioral => "behavioral",
        }
    }

    /// Case-insensitive parse; `behavior` is accepted for `behavioral`.
    pub fn parse(s: &str) -> (r: Option<FactKind>)
        ensures
            r == kind_of_word(lowercase(s@)),
    {
        let l = to_lowercase(s);
        let w = l.as_str();
        if str_eq(w, "profile") {
            Some(FactKind::Profile)
        } else if str_eq(w, "concept") {
            Some(FactKind::Concept)
        } else if str_eq(w, "state") {
            Some(FactKind::State)
        } else if str_eq(w, "behavioral") || str_eq(w, "behavior") {
            Some(FactKind::Behavioral)
        } else {
            None
        }
    }
}

/// Status of a stored fact: `Active` facts are injected into the prompt,
/// `Stale` facts are archived, `Unknown` facts surface with a warning marker.
#[derive(Debug, Clone, Copy, PartialEq, Eq, Structural)]
pub enum FactStatus {
    Active,
    Stale,
    Unknown,
}

pub open spec fn status_name(s: FactStatus) -> Seq<char> {
    match s {
        FactStatus::Active => "active"@,
        FactStatus::Stale => "stale"@,
        FactStatus::Unknown => "unknown"@,
    }
}

/// The status named by an already-lowercased word; anything else is `Active`.
pub open spec fn status_of_word(w: Seq<char>) -> FactStatus {
    if w == "stale"@ {
        FactStatus::Stale
    } else if w == "unknown"@ || w == "unknown_current"@ {
        FactStatus::Unknown
    } else {
        FactStatus::Active
    }
}

impl FactStatus {
    pub fn as_str(self) -> (r: &'static str)
        ensures
            r@ == status_name(self),
    {
        match self {
            FactStatus::Active => "active",
            FactStatus::Stale => "stale",
            FactStatus::Unknown => "unknown",
        }
    }

    pub fn parse(s: &str) -> (r: FactStatus)
        ensures
            r == status_of_word(lowercase(s@)),
    {
        let l = to_lowercase(s);
        let w = l.as_str();
        if str_eq(w, "stale") {
            FactStatus::Stale
        } else if str_eq(w, "unknown") || str_eq(w, "unknown_current") {
            FactStatus::Unknown
        } else {
            FactStatus::Active
        }
    }
}

/// One stored fact.
#[derive(Debug, Clone)]
pub struct Fact {
    pub id: i64,
    pub kind: FactKind,
    pub slug: String,
    pub content: String,
    pub skill_scope: Option<String>,
    pub created_at: i64,
    pub last_used: i64,
    pub status: FactStatus,
    pub stale_at: Option<i64>,
}

/// A fact as plain values.
pub struct FactView {
    pub id: i64,
    pub kind: FactKind,
    pub slug: Seq<char>,
    pub content: Seq<char>,
    pub scope: Option<Seq<char>>,
    pub created_at: i64,
    pub last_used: i64,
    pub status: FactStatus,
    pub stale_at: Option<i64>,
}

impl View for Fact {
    type V = FactView;

    open spec fn view(&self) -> FactView {
        FactView {
            id: self.id,
            kind: self.kind,
            slug: self.slug@,
            content: self.content@,
            scope: self.skill_scope.deep_view(),
            created_at: self.created_at,
            last_used: self.last_used,
            status: self.status,
            stale_at: self.stale_at,
        }
    }
}

pub open spec fn facts_view(fs: Seq<Fact>) -> Seq<FactView> {
    fs.map_values(|f: Fact| f@)
}

impl Fact {
    /// A stored row read back as a fact: its kind text must name a kind
    /// (`None` otherwise); its status text reads as in `FactStatus::parse`.
    pub fn from_row(
        id: i64,
        kind: &str,
        slug: String,
        content: String,
        skill_scope: Option<String>,
        created_at: i64,
        last_used: i64,
        status: &str,
        stale_at: Option<i64>,
    ) -> (r: Option<Fact>)
        ensures
            match kind_of_word(lowercase(kind@)) {
                None => r is None,
                Some(k) => r matches Some(f) && f@ == (FactView {
                    id,
                    kind: k,
                    slug: slug@,
                    content: content@,
                    scope: skill_scope.deep_view(),
                    created_at,
                    last_used,
                    status: status_of_word(lowercase(status@)),
                    stale_at,
                }),
            },
    {
        match FactKind::parse(kind) {
            None => None,
            Some(k) => Some(
                Fact {
                    id,
                    kind: k,
                    slug,
                    content,
                    skill_scope,
                    created_at,
                    last_used,
                    status: FactStatus::parse(status),
                    stale_at,
                },
            ),
        }
    }

    /// A copy of this fact.
    pub fn duplicate(&self) -> (r: Fact)
        ensures
            r@ == self@,
    {
        Fact {
            id: self.id,
            kind: self.kind,
            slug: self.slug.clone(),
            content: self.content.clone(),
            skill_scope: match &self.skill_scope {
                Some(s) => Some(s.clone()),
                None => None,
            },
            created_at: self.created_at,
            last_used: self.last_used,
            status: self.status,
            stale_at: self.stale_at,
        }
    }
}


/// The slot key of a scope: no scope and the empty scope share a slot.
pub open spec fn scope_key(scope: Option<Seq<char>>) -> Seq<char> {
    match scope {
        Some(s) => s,
        None => Seq::empty(),
    }
}

/// Whether `r` is the active row of the slot `(kind, slug, key)`.
pub open spec fn occupies(r: FactView, kind: FactKind, slug: Seq<char>, key: Seq<char>) -> bool {
    &&& r.status == FactStatus::Active
    &&& r.kind == kind
    &&& r.slug == slug
    &&& scope_key(r.scope) == key
}

/// Index (from `k` on) of the active row of a slot, or `-1`.
pub open spec fn slot_index_from(
    rows: Seq<FactView>,
    kind: FactKind,
    slug: Seq<char>,
    key: Seq<char>,
    k: int,
) -> int
    decreases rows.len() - k,
{
    if k < 0 || k >= rows.len() {
        -1
    } else if occupies(rows[k], kind, slug, key) {
        k
    } else {
        slot_index_from(rows, kind, slug, key, k + 1)
    }
}

/// Index of the active row of a slot, or `-1`.
pub open spec fn slot_index(rows: Seq<FactView>, kind: FactKind, slug: Seq<char>, key: Seq<char>) -> int {
    slot_index_from(rows, kind, slug, key, 0)
}

/// Index of the row with id `id`, or `-1`.
pub open spec fn id_index_from(rows: Seq<FactView>, id: i64, k: int) -> int
    decreases rows.len() - k,
{
    if k < 0 || k >= rows.len() {
        -1
    } else if rows[k].id == id {
        k
    } else {
        id_index_from(rows, id, k + 1)
    }
}

pub open spec fn id_index(rows: Seq<FactView>, id: i64) -> int {
    id_index_from(rows, id, 0)
}

/// The table invariant: ids strictly increase along the table and stay within
/// the id counter, and a slot holds at most one active row.
pub open spec fn rows_wf(rows: Seq<FactView>, last_id: i64) -> bool {
    &&& 0 <= last_id
    &&& forall|i: int, j: int| 0 <= i < j < rows.len() ==> rows[i].id < rows[j].id
    &&& forall|i: int| 0 <= i < rows.len() ==> 0 < #[trigger] rows[i].id <= last_id
    &&& forall|i: int, j: int|
        0 <= i < rows.len() && 0 <= j < rows.len() && i != j && rows[i].status
            == FactStatus::Active ==> !occupies(
            rows[j],
            rows[i].kind,
            rows[i].slug,
            scope_key(rows[i].scope),
        )
}

/// A freshly inserted row.
pub open spec fn new_row(
    id: i64,
    kind: FactKind,
    slug: Seq<char>,
    content: Seq<char>,
    scope: Option<Seq<char>>,
    now: i64,
) -> FactView {
    FactView {
        id,
        kind,
        slug,
        content,
        scope,
        created_at: now,
        last_used: now,
        status: FactStatus::Active,
        stale_at: None,
    }
}

/// The rows after an upsert that does not run out of ids: the active row of
/// the slot gets the new content and time, or a new active row is appended.
pub open spec fn upsert_rows(
    rows: Seq<FactView>,
    last_id: i64,
    kind: FactKind,
    slug: Seq<char>,
    content: Seq<char>,
    scope: Option<Seq<char>>,
    now: i64,
) -> Seq<FactView> {
    let i = slot_index(rows, kind, slug, scope_key(scope));
    if i >= 0 {
        rows.update(i, FactView { content, last_used: now, ..rows[i] })
    } else {
        rows.push(new_row((last_id + 1) as i64, kind, slug, content, scope, now))
    }
}

/// Whether `listed` shows a row: non-stale rows (or all rows when
/// `include_stale`) of the given kind (or of any kind).
pub open spec fn shown_in_list(r: FactView, kind: Option<FactKind>, include_stale: bool) -> bool {
    &&& (include_stale || r.status != FactStatus::Stale)
    &&& match kind {
        Some(k) => r.kind == k,
        None => true,
    }
}

/// List order: by kind name, then most recently used first, then by id.
pub open spec fn row_before(a: FactView, b: FactView) -> bool {
    if kind_rank(a.kind) != kind_rank(b.kind) {
        kind_rank(a.kind) < kind_rank(b.kind)
    } else if a.last_used != b.last_used {
        a.last_used > b.last_used
    } else {
        a.id < b.id
    }
}

/// `out` lists exactly the rows of `rows` that `shown_in_list` accepts, in list order.
pub open spec fn is_listing(
    out: Seq<FactView>,
    rows: Seq<FactView>,
    kind: Option<FactKind>,
    include_stale: bool,
) -> bool {
    &&& forall|r: FactView| out.contains(r) <==> (rows.contains(r) && shown_in_list(r, kind, include_stale))
    &&& forall|i: int, j: int| 0 <= i < j < out.len() ==> row_before(out[i], out[j])
}

/// The listing of `rows` (unique: see `lemma_listing_unique`).
pub open spec fn listing(rows: Seq<FactView>, kind: Option<FactKind>, include_stale: bool) -> Seq<FactView> {
    choose|out: Seq<FactView>| is_listing(out, rows, kind, include_stale)
}

/// Two sequences strictly ordered by `row_before` with the same elements are equal.
proof fn lemma_sorted_same_elems(a: Seq<FactView>, b: Seq<FactView>)
    requires
        forall|x: FactView| a.contains(x) <==> b.contains(x),
        forall|i: int, j: int| 0 <= i < j < a.len() ==> row_before(a[i], a[j]),
        forall|i: int, j: int| 0 <= i < j < b.len() ==> row_before(b[i], b[j]),
    ensures
        a == b,
    decreases a.len(),
{
    if a.len() == 0 {
        if b.len() > 0 {
            assert(b.contains(b[0]));
        }
        assert(a =~= b);
    } else {
        assert(a.contains(a[0]));
        let k = choose|k: int| 0 <= k < b.len() && b[k] == a[0];
        assert(b.contains(b[0]));
        let m = choose|m: int| 0 <= m < a.len() && a[m] == b[0];
        if k != 0 {
            if m == 0 {
                assert(b[0] == b[k]);
                lemma_row_before_order(b[0], b[0], b[0]);
            } else {
                lemma_row_before_order(a[0], b[0], b[0]);
            }
            assert(false);
        }
        let a1 = a.drop_first();
        let b1 = b.drop_first();
        assert forall|x: FactView| a1.contains(x) <==> b1.contains(x) by {
            if a1.contains(x) {
                let i = choose|i: int| 0 <= i < a1.len() && a1[i] == x;
                assert(a.contains(x) && a[i + 1] == x);
                lemma_row_before_order(a[0], x, x);
                let j = choose|j: int| 0 <= j < b.len() && b[j] == x;
                if j == 0 {
                    assert(false);
                }
                assert(b1[j - 1] == x);
            }
            if b1.contains(x) {
                let i = choose|i: int| 0 <= i < b1.len() && b1[i] == x;
                assert(b.contains(x) && b[i + 1] == x);
                lemma_row_before_order(b[0], x, x);
                let j = choose|j: int| 0 <= j < a.len() && a[j] == x;
                if j == 0 {
                    assert(false);
                }
                assert(a1[j - 1] == x);
            }
        }
        assert forall|i: int, j: int| 0 <= i < j < a1.len() implies row_before(a1[i], a1[j]) by {
            assert(a1[i] == a[i + 1] && a1[j] == a[j + 1]);
        }
        assert forall|i: int, j: int| 0 <= i < j < b1.len() implies row_before(b1[i], b1[j]) by {
            assert(b1[i] == b[i + 1] && b1[j] == b[j + 1]);
        }
        lemma_sorted_same_elems(a1, b1);
        assert(a =~= b1.insert(0, a[0]));
        assert(b =~= b1.insert(0, b[0]));
    }
}

/// There is one listing of a table: the one that `list` returns.
pub proof fn lemma_listing_unique(out: Seq<FactView>, rows: Seq<FactView>, kind: Option<FactKind>, include_stale: bool)
    requires
        is_listing(out, rows, kind, include_stale),
    ensures
        out == listing(rows, kind, include_stale),
{
    let other = listing(rows, kind, include_stale);
    assert(is_listing(other, rows, kind, include_stale));
    lemma_sorted_same_elems(out, other);
}

/// Every row with the given id gets `f` applied.
pub open spec fn set_status_rows(rows: Seq<FactView>, id: i64, status: FactStatus, stale_at: Option<i64>) -> Seq<FactView> {
    rows.map_values(|r: FactView| if r.id == id { FactView { status, stale_at, ..r } } else { r })
}

pub open spec fn set_status_only_rows(rows: Seq<FactView>, id: i64, status: FactStatus) -> Seq<FactView> {
    rows.map_values(|r: FactView| if r.id == id { FactView { status, ..r } } else { r })
}

pub open spec fn touch_rows(rows: Seq<FactView>, id: i64, now: i64) -> Seq<FactView> {
    rows.map_values(|r: FactView| if r.id == id { FactView { last_used: now, ..r } } else { r })
}

/// Whether reviving row `id` would give its slot a second active row.
pub open spec fn revive_conflicts(rows: Seq<FactView>, id: i64) -> bool {
    let i = id_index(rows, id);
    &&& i >= 0
    &&& rows[i].status != FactStatus::Active
    &&& slot_index(rows, rows[i].kind, rows[i].slug, scope_key(rows[i].scope)) >= 0
}

/// Content of the first `profile/user` row (any scope, any status).
pub open spec fn profile_from(rows: Seq<FactView>, k: int) -> Option<Seq<char>>
    decreases rows.len() - k,
{
    if k < 0 || k >= rows.len() {
        None
    } else if rows[k].kind == FactKind::Profile && rows[k].slug == "user"@ {
        Some(rows[k].content)
    } else {
        profile_from(rows, k + 1)
    }
}

/// Why a table operation was refused.
#[derive(Debug, Clone, Copy, PartialEq, Eq, Structural)]
pub enum MemoryError {
    /// Every row id has been used; no row can be added.
    IdsExhausted,
    /// The slot already has an active row, so another row cannot become active.
    SlotTaken,
    /// Rows handed to `from_rows` break the table invariant.
    Corrupt,
}


pub proof fn lemma_slot_index_from(rows: Seq<FactView>, kind: FactKind, slug: Seq<char>, key: Seq<char>, k: int)
    requires
        0 <= k,
    ensures
        slot_index_from(rows, kind, slug, key, k) == -1 || (k <= slot_index_from(rows, kind, slug, key, k) < rows.len()
            && occupies(rows[slot_index_from(rows, kind, slug, key, k)], kind, slug, key)),
        slot_index_from(rows, kind, slug, key, k) == -1 ==> forall|j: int|
            k <= j < rows.len() ==> !occupies(#[trigger] rows[j], kind, slug, key),
    decreases rows.len() - k,
{
    if k < rows.len() && !occupies(rows[k], kind, slug, key) {
        lemma_slot_index_from(rows, kind, slug, key, k + 1);
    }
}

pub proof fn lemma_id_index_from(rows: Seq<FactView>, id: i64, k: int)
    requires
        0 <= k,
    ensures
        id_index_from(rows, id, k) == -1 || (k <= id_index_from(rows, id, k) < rows.len()
            && rows[id_index_from(rows, id, k)].id == id),
        id_index_from(rows, id, k) == -1 ==> forall|j: int| k <= j < rows.len() ==> #[trigger] rows[j].id != id,
    decreases rows.len() - k,
{
    if k < rows.len() && rows[k].id != id {
        lemma_id_index_from(rows, id, k + 1);
    }
}

/// In a valid table the active row of a slot is the only row occupying it.
pub proof fn lemma_slot_unique(rows: Seq<FactView>, last_id: i64, kind: FactKind, slug: Seq<char>, key: Seq<char>, j: int)
    requires
        rows_wf(rows, last_id),
        0 <= j < rows.len(),
        occupies(rows[j], kind, slug, key),
    ensures
        slot_index(rows, kind, slug, key) == j,
{
    lemma_slot_index_from(rows, kind, slug, key, 0);
    let i = slot_index(rows, kind, slug, key);
    if i != j {
        assert(rows[i].status == FactStatus::Active);
        assert(!occupies(rows[j], rows[i].kind, rows[i].slug, scope_key(rows[i].scope)));
    }
}

/// In a valid table a row is found by its id.
pub proof fn lemma_id_unique(rows: Seq<FactView>, last_id: i64, j: int)
    requires
        rows_wf(rows, last_id),
        0 <= j < rows.len(),
    ensures
        id_index(rows, rows[j].id) == j,
{
    lemma_id_index_from(rows, rows[j].id, 0);
    let i = id_index(rows, rows[j].id);
    if i < j {
        assert(rows[i].id < rows[j].id);
    } else if i > j {
        assert(rows[j].id < rows[i].id);
    }
}

/// The fact table. Facts live in the order they were added, ids are never
/// reused, and a slot `(kind, slug, scope)` holds at most one active row;
/// archived (stale) rows of a slot stay beside its active row for audit.
pub struct MemoryStore {
    rows: Vec<Fact>,
    last_id: i64,
}

impl View for MemoryStore {
    type V = Seq<FactView>;

    closed spec fn view(&self) -> Seq<FactView> {
        facts_view(self.rows@)
    }
}

fn occupies_exec(f: &Fact, kind: FactKind, slug: &str, key: &str) -> (r: bool)
    ensures
        r == occupies(f@, kind, slug@, key@),
{
    if f.status != FactStatus::Active || f.kind != kind {
        return false;
    }
    if !str_eq(f.slug.as_str(), slug) {
        return false;
    }
    match &f.skill_scope {
        Some(sc) => str_eq(sc.as_str(), key),
        None => {
            let e = key.is_empty();
            assert(e ==> key@ =~= Seq::<char>::empty());
            e
        },
    }
}

impl MemoryStore {
    /// The largest id handed out so far (0 before the first insert).
    pub closed spec fn last_id(&self) -> i64 {
        self.last_id
    }

    /// The table invariant holds.
    pub closed spec fn wf(&self) -> bool {
        rows_wf(self@, self.last_id)
    }

    /// A valid table holds at most one active fact per slot `(kind, slug,
    /// scope)`; archived rows of a slot may sit beside it.
    pub proof fn lemma_one_active_per_slot(&self, i: int, j: int)
        requires
            self.wf(),
            0 <= i < self@.len(),
            0 <= j < self@.len(),
            i != j,
            self@[i].status == FactStatus::Active,
            self@[j].status == FactStatus::Active,
        ensures
            !(self@[i].kind == self@[j].kind && self@[i].slug == self@[j].slug && scope_key(self@[i].scope) == scope_key(
                self@[j].scope,
            )),
    {
        assert(!occupies(self@[j], self@[i].kind, self@[i].slug, scope_key(self@[i].scope)));
    }

    /// An empty table.
    pub fn open_in_memory() -> (r: Result<MemoryStore, MemoryError>)
        ensures
            r is Ok,
            r->Ok_0.wf(),
            r->Ok_0@ == Seq::<FactView>::empty(),
            r->Ok_0.last_id() == 0,
    {
        let s = MemoryStore { rows: Vec::new(), last_id: 0 };
        assert(s@ =~= Seq::<FactView>::empty());
        Ok(s)
    }

    fn find_slot(&self, kind: FactKind, slug: &str, key: &str) -> (r: Option<usize>)
        ensures
            match r {
                Some(i) => i as int == slot_index(self@, kind, slug@, key@) && i < self@.len(),
                None => slot_index(self@, kind, slug@, key@) == -1,
            },
    {
        let mut i: usize = 0;
        while i < self.rows.len()
            invariant
                i <= self.rows@.len(),
                self@.len() == self.rows@.len(),
                slot_index(self@, kind, slug@, key@) == slot_index_from(self@, kind, slug@, key@, i as int),
            decreases self.rows@.len() - i,
        {
            if occupies_exec(&self.rows[i], kind, slug, key) {
                return Some(i);
            }
            i = i + 1;
        }
        None
    }

    fn find_id(&self, id: i64) -> (r: Option<usize>)
        ensures
            match r {
                Some(i) => i as int == id_index(self@, id) && i < self@.len(),
                None => id_index(self@, id) == -1,
            },
    {
        let mut i: usize = 0;
        while i < self.rows.len()
            invariant
                i <= self.rows@.len(),
                self@.len() == self.rows@.len(),
                id_index(self@, id) == id_index_from(self@, id, i as int),
            decreases self.rows@.len() - i,
        {
            if self.rows[i].id == id {
                return Some(i);
            }
            i = i + 1;
        }
        None
    }

    /// Upsert a fact into the active slot `(kind, slug, scope)` at time `now`:
    /// an active row of the slot gets the new content and `last_used`,
    /// otherwise a new active row is added. Archived rows are never touched.
    pub fn upsert_at(
        &mut self,
        kind: FactKind,
        slug: &str,
        content: &str,
        skill_scope: Option<&str>,
        now: i64,
    ) -> (r: Result<i64, MemoryError>)
        requires
            old(self).wf(),
        ensures
            final(self).wf(),
            match r {
                Ok(id) => {
                    &&& final(self)@ == upsert_rows(old(self)@, old(self).last_id(), kind, slug@, content@, skill_scope.deep_view(), now)
                    &&& slot_index(old(self)@, kind, slug@, scope_key(skill_scope.deep_view())) >= 0 ==> final(self).last_id() == old(self).last_id()
                    &&& slot_index(old(self)@, kind, slug@, scope_key(skill_scope.deep_view())) < 0 ==> final(self).last_id() == old(self).last_id() + 1
                    &&& slot_index(final(self)@, kind, slug@, scope_key(skill_scope.deep_view())) >= 0
                    &&& final(self)@[slot_index(final(self)@, kind, slug@, scope_key(skill_scope.deep_view()))].id == id
                },
                Err(e) => {
                    &&& e == MemoryError::IdsExhausted
                    &&& slot_index(old(self)@, kind, slug@, scope_key(skill_scope.deep_view())) < 0
                    &&& old(self).last_id() == i64::MAX
                    &&& final(self)@ == old(self)@
                    &&& final(self).last_id() == old(self).last_id()
                },
            },
    {
        let key: &str = match skill_scope {
            Some(sc) => sc,
            None => "",
        };
        proof {
            reveal_strlit("");
            assert(key@ == scope_key(skill_scope.deep_view()));
        }
        let ghost old_rows = self@;
        let ghost k = scope_key(skill_scope.deep_view());
        match self.find_slot(kind, slug, key) {
            Some(i) => {
                let mut f = self.rows[i].duplicate();
                f.content = String::from_str(content);
                f.last_used = now;
                let id = f.id;
                self.rows.set(i, f);
                proof {
                    lemma_slot_index_from(old_rows, kind, slug@, k, 0);
                    let new_rows = self@;
                    assert(new_rows =~= old_rows.update(i as int, FactView { content: content@, last_used: now, ..old_rows[i as int] }));
                    assert(occupies(new_rows[i as int], kind, slug@, k));
                    assert forall|a: int, b: int|
                        0 <= a < new_rows.len() && 0 <= b < new_rows.len() && a != b && new_rows[a].status
                            == FactStatus::Active implies !occupies(
                        new_rows[b],
                        new_rows[a].kind,
                        new_rows[a].slug,
                        scope_key(new_rows[a].scope),
                    ) by {
                        assert(old_rows[a].status == FactStatus::Active);
                        assert(!occupies(old_rows[b], old_rows[a].kind, old_rows[a].slug, scope_key(old_rows[a].scope)));
                    }
                    lemma_slot_unique(new_rows, self.last_id, kind, slug@, k, i as int);
                }
                Ok(id)
            },
            None => {
                if self.last_id == i64::MAX {
                    return Err(MemoryError::IdsExhausted);
                }
                let id = self.last_id + 1;
                let scope_owned: Option<String> = match skill_scope {
                    Some(sc) => Some(String::from_str(sc)),
                    None => None,
                };
                let f = Fact {
                    id,
                    kind,
                    slug: String::from_str(slug),
                    content: String::from_str(content),
                    skill_scope: scope_owned,
                    created_at: now,
                    last_used: now,
                    status: FactStatus::Active,
                    stale_at: None,
                };
                assert(f@ == new_row(id, kind, slug@, content@, skill_scope.deep_view(), now));
                self.rows.push(f);
                self.last_id = id;
                proof {
                    lemma_slot_index_from(old_rows, kind, slug@, k, 0);
                    let new_rows = self@;
                    assert(new_rows =~= old_rows.push(f@));
                    let n = old_rows.len() as int;
                    assert forall|a: int, b: int|
                        0 <= a < new_rows.len() && 0 <= b < new_rows.len() && a != b && new_rows[a].status
                            == FactStatus::Active implies !occupies(
                        new_rows[b],
                        new_rows[a].kind,
                        new_rows[a].slug,
                        scope_key(new_rows[a].scope),
                    ) by {
                        if a < n && b < n {
                            assert(!occupies(old_rows[b], old_rows[a].kind, old_rows[a].slug, scope_key(old_rows[a].scope)));
                        } else if a == n {
                            assert(!occupies(old_rows[b], kind, slug@, k));
                        } else {
                            assert(!occupies(old_rows[a], kind, slug@, k));
                        }
                    }
                    assert(occupies(new_rows[n], kind, slug@, k));
                    assert forall|a: int, b: int| 0 <= a < b < new_rows.len() implies new_rows[a].id < new_rows[b].id by {
                        if b == n {
                            assert(old_rows[a].id <= old(self).last_id);
                        }
                    }
                    assert forall|a: int| 0 <= a < new_rows.len() implies 0 < #[trigger] new_rows[a].id <= self.last_id by {
                        if a < n {
                            assert(new_rows[a] == old_rows[a]);
                            assert(0 < old_rows[a].id <= old(self).last_id);
                        } else {
                            assert(new_rows[a].id == id);
                        }
                    }
                    lemma_slot_unique(new_rows, self.last_id, kind, slug@, k, n);
                }
                Ok(id)
            },
        }
    }
}


pub proof fn lemma_row_before_order(a: FactView, b: FactView, c: FactView)
    ensures
        !row_before(a, a),
        row_before(a, b) && row_before(b, c) ==> row_before(a, c),
        a.id != b.id ==> (row_before(a, b) || row_before(b, a)),
        row_before(a, b) ==> !row_before(b, a),
{
}

fn row_before_exec(a: &Fact, b: &Fact) -> (r: bool)
    ensures
        r == row_before(a@, b@),
{
    let ra: u8 = match a.kind {
        FactKind::Behavioral => 0,
        FactKind::Concept => 1,
        FactKind::Profile => 2,
        FactKind::State => 3,
    };
    let rb: u8 = match b.kind {
        FactKind::Behavioral => 0,
        FactKind::Concept => 1,
        FactKind::Profile => 2,
        FactKind::State => 3,
    };
    if ra != rb {
        ra < rb
    } else if a.last_used != b.last_used {
        a.last_used > b.last_used
    } else {
        a.id < b.id
    }
}

/// The facts of `v` in list order.
fn sort_facts(v: Vec<Fact>) -> (r: Vec<Fact>)
    requires
        forall|i: int, j: int| 0 <= i < v@.len() && 0 <= j < v@.len() && i != j ==> v@[i].id != v@[j].id,
    ensures
        forall|f: FactView| facts_view(r@).contains(f) <==> facts_view(v@).contains(f),
        forall|i: int, j: int| 0 <= i < j < r@.len() ==> row_before(r@[i]@, r@[j]@),
{
    let mut res: Vec<Fact> = Vec::new();
    let mut i: usize = 0;
    while i < v.len()
        invariant
            i <= v@.len(),
            forall|a: int, b: int| 0 <= a < v@.len() && 0 <= b < v@.len() && a != b ==> v@[a].id != v@[b].id,
            forall|f: FactView| facts_view(res@).contains(f) <==> facts_view(v@.take(i as int)).contains(f),
            forall|a: int, b: int| 0 <= a < b < res@.len() ==> row_before(res@[a]@, res@[b]@),
        decreases v@.len() - i,
    {
        let x = v[i].duplicate();
        let mut p: usize = 0;
        while p < res.len() && !row_before_exec(&x, &res[p])
            invariant
                p <= res@.len(),
                forall|j: int| 0 <= j < p ==> !row_before(x@, res@[j]@),
            decreases res@.len() - p,
        {
            p = p + 1;
        }
        let ghost old_res = res@;
        proof {
            // x's id differs from every id already placed.
            assert forall|j: int| 0 <= j < old_res.len() implies old_res[j]@.id != x@.id by {
                assert(facts_view(old_res)[j] == old_res[j]@);
                assert(facts_view(old_res).contains(old_res[j]@));
                assert(facts_view(v@.take(i as int)).contains(old_res[j]@));
                let k = choose|k: int| 0 <= k < facts_view(v@.take(i as int)).len() && facts_view(v@.take(i as int))[k] == old_res[j]@;
                assert(v@[k]@ == old_res[j]@);
                assert(v@[k].id != v@[i as int].id);
            }
        }
        res.insert(p, x);
        proof {
            let nr = res@;
            assert(nr =~= old_res.insert(p as int, x));
            assert forall|a: int, b: int| 0 <= a < b < nr.len() implies row_before(nr[a]@, nr[b]@) by {
                if b < p {
                    assert(nr[a] == old_res[a] && nr[b] == old_res[b]);
                } else if b == p {
                    assert(nr[a] == old_res[a]);
                    lemma_row_before_order(old_res[a]@, x@, x@);
                } else if a == p {
                    assert(nr[b] == old_res[b - 1]);
                    if b - 1 > p {
                        lemma_row_before_order(x@, old_res[p as int]@, old_res[b - 1]@);
                    }
                } else if a < p {
                    assert(nr[a] == old_res[a] && nr[b] == old_res[b - 1]);
                } else {
                    assert(nr[a] == old_res[a - 1] && nr[b] == old_res[b - 1]);
                }
            }
            assert(facts_view(nr) =~= facts_view(old_res).insert(p as int, x@));
            assert(v@.take(i + 1) =~= v@.take(i as int).push(v@[i as int]));
            assert(facts_view(v@.take(i + 1)) =~= facts_view(v@.take(i as int)).push(x@));
            assert forall|f: FactView| facts_view(nr).contains(f) <==> facts_view(v@.take(i + 1)).contains(f) by {
                let fo = facts_view(old_res);
                let ft = facts_view(v@.take(i as int));
                let f1 = facts_view(v@.take(i + 1));
                let fnr = facts_view(nr);
                if fnr.contains(f) {
                    let k = choose|k: int| 0 <= k < fnr.len() && fnr[k] == f;
                    if k < p {
                        assert(fo[k] == f);
                        assert(fo.contains(f));
                        assert(ft.contains(f));
                        let m = choose|m: int| 0 <= m < ft.len() && ft[m] == f;
                        assert(f1[m] == f);
                    } else if k == p {
                        assert(f1[i as int] == f);
                    } else {
                        assert(fo[k - 1] == f);
                        assert(fo.contains(f));
                        assert(ft.contains(f));
                        let m = choose|m: int| 0 <= m < ft.len() && ft[m] == f;
                        assert(f1[m] == f);
                    }
                }
                if f1.contains(f) {
                    let m = choose|m: int| 0 <= m < f1.len() && f1[m] == f;
                    if m < i {
                        assert(ft[m] == f);
                        assert(fo.contains(f));
                        let k = choose|k: int| 0 <= k < fo.len() && fo[k] == f;
                        if k < p {
                            assert(fnr[k] == f);
                        } else {
                            assert(fnr[k + 1] == f);
                        }
                    } else {
                        assert(fnr[p as int] == f);
                    }
                }
            }
        }
        i = i + 1;
    }
    assert(v@.take(v@.len() as int) =~= v@);
    res
}


#[verifier::external_type_specification]
#[verifier::external_body]
pub struct ExSystemTime(std::time::SystemTime);

/// `SystemTime::now`: the current wall-clock time.
#[verifier::external_body]
fn system_now() -> std::time::SystemTime {
    std::time::SystemTime::now()
}

/// `SystemTime::duration_since(UNIX_EPOCH)` in whole seconds; `None` for a
/// time before the epoch.
#[verifier::external_body]
fn secs_since_epoch(t: &std::time::SystemTime) -> Option<u64> {
    t.duration_since(std::time::UNIX_EPOCH).ok().map(|d| d.as_secs())
}

/// Seconds since the Unix epoch, or 0 when the clock is before the epoch or
/// beyond the `i64` range.
pub fn now_secs() -> (r: i64)
    ensures
        r >= 0,
{
    let t = system_now();
    match secs_since_epoch(&t) {
        Some(s) => if s <= i64::MAX as u64 {
            s as i64
        } else {
            0
        },
        None => 0,
    }
}

/// Rows whose id is `id` are replaced by `f(row)`; in a valid table that is
/// the single row at `id_index`.
pub proof fn lemma_map_one_row(rows: Seq<FactView>, last_id: i64, i: int, new_row: FactView, mapped: Seq<FactView>)
    requires
        rows_wf(rows, last_id),
        0 <= i < rows.len(),
        mapped.len() == rows.len(),
        mapped[i] == new_row,
        forall|j: int| 0 <= j < rows.len() && rows[j].id != rows[i].id ==> mapped[j] == rows[j],
    ensures
        mapped == rows.update(i, new_row),
{
    assert forall|j: int| 0 <= j < rows.len() && j != i implies mapped[j] == rows[j] by {
        if j < i {
            assert(rows[j].id < rows[i].id);
        } else {
            assert(rows[i].id < rows[j].id);
        }
    }
    assert(mapped =~= rows.update(i, new_row));
}

/// Changing status or time fields of one row keeps a valid table valid,
/// unless the row becomes active in a slot that already has an active row.
pub proof fn lemma_update_keeps_wf(rows: Seq<FactView>, last_id: i64, i: int, new_row: FactView)
    requires
        rows_wf(rows, last_id),
        0 <= i < rows.len(),
        new_row.id == rows[i].id,
        new_row.kind == rows[i].kind,
        new_row.slug == rows[i].slug,
        new_row.scope == rows[i].scope,
        new_row.status == FactStatus::Active ==> (rows[i].status == FactStatus::Active || slot_index(
            rows,
            rows[i].kind,
            rows[i].slug,
            scope_key(rows[i].scope),
        ) < 0),
    ensures
        rows_wf(rows.update(i, new_row), last_id),
{
    let nr = rows.update(i, new_row);
    lemma_slot_index_from(rows, rows[i].kind, rows[i].slug, scope_key(rows[i].scope), 0);
    assert forall|a: int, b: int|
        0 <= a < nr.len() && 0 <= b < nr.len() && a != b && nr[a].status == FactStatus::Active implies !occupies(
        nr[b],
        nr[a].kind,
        nr[a].slug,
        scope_key(nr[a].scope),
    ) by {
        if a == i {
            if rows[i].status == FactStatus::Active {
                assert(!occupies(rows[b], rows[i].kind, rows[i].slug, scope_key(rows[i].scope)));
            } else {
                assert(!occupies(rows[b], rows[i].kind, rows[i].slug, scope_key(rows[i].scope)));
            }
        } else if b == i {
            assert(rows[a].status == FactStatus::Active);
            if occupies(nr[b], nr[a].kind, nr[a].slug, scope_key(nr[a].scope)) {
                assert(occupies(rows[a], rows[i].kind, rows[i].slug, scope_key(rows[i].scope)));
                if rows[i].status == FactStatus::Active {
                    assert(!occupies(rows[a], rows[i].kind, rows[i].slug, scope_key(rows[i].scope)));
                }
            }
        } else {
            assert(!occupies(rows[b], rows[a].kind, rows[a].slug, scope_key(rows[a].scope)));
        }
    }
}

/// A subsequence-like selection of a valid table (same last id, increasing
/// ids, rows taken from the table) is itself valid.
proof fn lemma_selection_wf(sub: Seq<FactView>, rows: Seq<FactView>, last_id: i64)
    requires
        rows_wf(rows, last_id),
        forall|a: int, b: int| 0 <= a < b < sub.len() ==> sub[a].id < sub[b].id,
        forall|a: int| 0 <= a < sub.len() ==> rows.contains(#[trigger] sub[a]),
    ensures
        rows_wf(sub, last_id),
{
    assert forall|a: int| 0 <= a < sub.len() implies 0 < #[trigger] sub[a].id <= last_id by {
        assert(rows.contains(sub[a]));
        let k = choose|k: int| 0 <= k < rows.len() && rows[k] == sub[a];
        assert(0 < rows[k].id <= last_id);
    }
    assert forall|a: int, b: int|
        0 <= a < sub.len() && 0 <= b < sub.len() && a != b && sub[a].status == FactStatus::Active implies !occupies(
        sub[b],
        sub[a].kind,
        sub[a].slug,
        scope_key(sub[a].scope),
    ) by {
        assert(rows.contains(sub[a]));
        assert(rows.contains(sub[b]));
        let ka = choose|k: int| 0 <= k < rows.len() && rows[k] == sub[a];
        let kb = choose|k: int| 0 <= k < rows.len() && rows[k] == sub[b];
        if a < b {
            assert(sub[a].id < sub[b].id);
        } else {
            assert(sub[b].id < sub[a].id);
        }
        assert(ka != kb);
        assert(!occupies(rows[kb], rows[ka].kind, rows[ka].slug, scope_key(rows[ka].scope)));
    }
}

impl MemoryStore {
    /// The rows (in table order) that `shown_in_list` accepts.
    fn select(&self, kind: Option<FactKind>, include_stale: bool) -> (r: Vec<Fact>)
        requires
            self.wf(),
        ensures
            forall|f: FactView| facts_view(r@).contains(f) <==> (self@.contains(f) && shown_in_list(f, kind, include_stale)),
            forall|a: int, b: int| 0 <= a < b < r@.len() ==> r@[a].id < r@[b].id,
    {
        let mut out: Vec<Fact> = Vec::new();
        let mut i: usize = 0;
        while i < self.rows.len()
            invariant
                self.wf(),
                i <= self.rows@.len(),
                forall|f: FactView|
                    #![trigger facts_view(out@).contains(f)]
                    #![trigger facts_view(self.rows@.take(i as int)).contains(f)]
                    facts_view(out@).contains(f) <==> (facts_view(self.rows@.take(i as int)).contains(f)
                    && shown_in_list(f, kind, include_stale)),
                forall|a: int, b: int| 0 <= a < b < out@.len() ==> out@[a].id < out@[b].id,
                forall|a: int| 0 <= a < out@.len() ==> (i < self.rows@.len() ==> out@[a].id < self.rows@[i as int].id),
            decreases self.rows@.len() - i,
        {
            let ghost rows = self@;
            let ghost old_out = out@;
            let keep = {
                let f = &self.rows[i];
                let by_status = include_stale || f.status != FactStatus::Stale;
                let by_kind = match kind {
                    Some(k) => f.kind == k,
                    None => true,
                };
                by_status && by_kind
            };
            assert(rows[i as int] == self.rows@[i as int]@);
            if keep {
                out.push(self.rows[i].duplicate());
            }
            proof {
                let t0 = facts_view(self.rows@.take(i as int));
                let t1 = facts_view(self.rows@.take(i + 1));
                assert(t1 =~= t0.push(rows[i as int]));
                if keep {
                    assert(facts_view(out@) =~= facts_view(old_out).push(rows[i as int]));
                } else {
                    assert(facts_view(out@) =~= facts_view(old_out));
                }
                assert(keep == shown_in_list(rows[i as int], kind, include_stale));
                assert forall|f: FactView| facts_view(out@).contains(f) <==> (t1.contains(f) && shown_in_list(f, kind, include_stale)) by {
                    lemma_push_contains(t0, rows[i as int], f);
                    lemma_push_contains(facts_view(old_out), rows[i as int], f);
                    assert(facts_view(old_out).contains(f) <==> (t0.contains(f) && shown_in_list(f, kind, include_stale)));
                    if keep {
                        assert(facts_view(out@).contains(f) <==> (facts_view(old_out).contains(f) || f == rows[i as int]));
                    } else {
                        assert(facts_view(out@).contains(f) <==> facts_view(old_out).contains(f));
                    }
                    assert(t1.contains(f) <==> (t0.contains(f) || f == rows[i as int]));
                }
                assert forall|a: int| 0 <= a < out@.len() implies (i + 1 < self.rows@.len() ==> out@[a].id < self.rows@[i + 1].id) by {
                    if i + 1 < self.rows@.len() {
                        assert(rows[i as int].id < rows[i + 1].id);
                        if a < old_out.len() {
                            assert(out@[a] == old_out[a]);
                        }
                    }
                }
            }
            i = i + 1;
        }
        assert(self.rows@.take(i as int) =~= self.rows@);
        assert(facts_view(self.rows@.take(i as int)) == self@);
        out
    }

    /// Facts that are not archived, of the given kind (or of every kind),
    /// ordered by kind name, most recently used first, then by id.
    pub fn list(&self, kind: Option<FactKind>) -> (r: Result<Vec<Fact>, MemoryError>)
        requires
            self.wf(),
        ensures
            r is Ok,
            is_listing(facts_view(r->Ok_0@), self@, kind, false),
            facts_view(r->Ok_0@) == listing(self@, kind, false),
    {
        let sel = self.select(kind, false);
        let out = sort_facts(sel);
        proof { lemma_listing_unique(facts_view(out@), self@, kind, false); }
        Ok(out)
    }

    /// Every fact of the given kind (or of every kind), archived ones
    /// included, in the order of `list`.
    pub fn list_all(&self, kind: Option<FactKind>) -> (r: Result<Vec<Fact>, MemoryError>)
        requires
            self.wf(),
        ensures
            r is Ok,
            is_listing(facts_view(r->Ok_0@), self@, kind, true),
            facts_view(r->Ok_0@) == listing(self@, kind, true),
    {
        let sel = self.select(kind, true);
        let out = sort_facts(sel);
        proof { lemma_listing_unique(facts_view(out@), self@, kind, true); }
        Ok(out)
    }
}


impl MemoryStore {
    /// `upsert_at` at the current time.
    pub fn upsert(&mut self, kind: FactKind, slug: &str, content: &str, skill_scope: Option<&str>) -> (r: Result<i64, MemoryError>)
        requires
            old(self).wf(),
        ensures
            final(self).wf(),
            match r {
                Ok(id) => {
                    &&& exists|now: i64| 0 <= now && final(self)@ == upsert_rows(old(self)@, old(self).last_id(), kind, slug@, content@, skill_scope.deep_view(), now)
                    &&& slot_index(final(self)@, kind, slug@, scope_key(skill_scope.deep_view())) >= 0
                    &&& final(self)@[slot_index(final(self)@, kind, slug@, scope_key(skill_scope.deep_view()))].id == id
                },
                Err(e) => {
                    &&& e == MemoryError::IdsExhausted
                    &&& slot_index(old(self)@, kind, slug@, scope_key(skill_scope.deep_view())) < 0
                    &&& old(self).last_id() == i64::MAX
                    &&& final(self)@ == old(self)@
                },
            },
    {
        let now = now_secs();
        self.upsert_at(kind, slug, content, skill_scope, now)
    }

    /// Delete every row (any kind, scope or status) whose slug is `slug`;
    /// returns how many were deleted.
    pub fn forget(&mut self, slug: &str) -> (r: Result<usize, MemoryError>)
        requires
            old(self).wf(),
        ensures
            final(self).wf(),
            final(self).last_id() == old(self).last_id(),
            final(self)@ == old(self)@.filter(|f: FactView| f.slug != slug@),
            r is Ok,
            r->Ok_0 == old(self)@.len() - final(self)@.len(),
    {
        let ghost rows = self@;
        let ghost sv = slug@;
        let ghost pred = |f: FactView| f.slug != sv;
        let mut kept: Vec<Fact> = Vec::new();
        let mut i: usize = 0;
        while i < self.rows.len()
            invariant
                self.wf(),
                self@ == rows,
                sv == slug@,
                pred == (|f: FactView| f.slug != sv),
                i <= self.rows@.len(),
                facts_view(kept@) == rows.take(i as int).filter(pred),
                forall|a: int, b: int| 0 <= a < b < kept@.len() ==> kept@[a].id < kept@[b].id,
                forall|a: int| 0 <= a < kept@.len() ==> (i < rows.len() ==> kept@[a].id < rows[i as int].id),
                forall|a: int| 0 <= a < kept@.len() ==> rows.contains(#[trigger] kept@[a]@),
            decreases self.rows@.len() - i,
        {
            let ghost old_kept = kept@;
            assert(rows[i as int] == self.rows@[i as int]@);
            let same = str_eq(self.rows[i].slug.as_str(), slug);
            if !same {
                kept.push(self.rows[i].duplicate());
            }
            proof {
                assert(rows.take(i + 1).drop_last() =~= rows.take(i as int));
                assert(rows[i as int].slug == self.rows@[i as int].slug@);
                assert(pred(rows[i as int]) == (rows[i as int].slug != sv));
                assert(pred(rows[i as int]) == !same);
                assert(rows.take(i + 1).last() == rows[i as int]);
                reveal_with_fuel(Seq::<_>::filter, 1);
                assert(rows.take(i + 1).filter(pred) == (if pred(rows[i as int]) {
                    rows.take(i as int).filter(pred).push(rows[i as int])
                } else {
                    rows.take(i as int).filter(pred)
                }));
                if !same {
                    assert(facts_view(kept@) =~= facts_view(old_kept).push(rows[i as int]));
                } else {
                    assert(facts_view(kept@) =~= facts_view(old_kept));
                }
                assert forall|a: int| 0 <= a < kept@.len() implies (i + 1 < rows.len() ==> kept@[a].id < rows[i + 1].id) by {
                    if i + 1 < rows.len() {
                        assert(rows[i as int].id < rows[i + 1].id);
                        if a < old_kept.len() {
                            assert(kept@[a] == old_kept[a]);
                        }
                    }
                }
                assert forall|a: int| 0 <= a < kept@.len() implies rows.contains(#[trigger] kept@[a]@) by {
                    if a < old_kept.len() {
                        assert(kept@[a] == old_kept[a]);
                    } else {
                        assert(rows[i as int] == kept@[a]@);
                    }
                }
            }
            i = i + 1;
        }
        assert(rows.take(i as int) =~= rows);
        let removed = self.rows.len() - kept.len();
        self.rows = kept;
        proof {
            lemma_selection_wf(self@, rows, self.last_id);
            rows.lemma_filter_len(pred);
        }
        Ok(removed)
    }

    /// Set status and `stale_at` of row `id` (no-op when absent).
    fn set_status(&mut self, id: i64, status: FactStatus, stale_at: Option<i64>)
        requires
            old(self).wf(),
            status != FactStatus::Active,
        ensures
            final(self).wf(),
            final(self).last_id() == old(self).last_id(),
            final(self)@ == set_status_rows(old(self)@, id, status, stale_at),
    {
        let ghost rows = self@;
        match self.find_id(id) {
            Some(i) => {
                proof { lemma_id_index_from(rows, id, 0); }
                let mut f = self.rows[i].duplicate();
                f.status = status;
                f.stale_at = stale_at;
                self.rows.set(i, f);
                proof {
                    assert(self@ =~= rows.update(i as int, f@));
                    lemma_update_keeps_wf(rows, self.last_id, i as int, f@);
                    lemma_map_one_row(rows, self.last_id, i as int, f@, set_status_rows(rows, id, status, stale_at));
                }
            },
            None => {
                proof {
                    lemma_id_index_from(rows, id, 0);
                    assert(set_status_rows(rows, id, status, stale_at) =~= rows);
                }
            },
        }
    }

    /// Archive row `id` at time `now`: it stays in the table (and in
    /// `list_all`) but leaves `list` and the prompt.
    pub fn mark_stale_at(&mut self, id: i64, now: i64) -> (r: Result<(), MemoryError>)
        requires
            old(self).wf(),
        ensures
            r is Ok,
            final(self).wf(),
            final(self).last_id() == old(self).last_id(),
            final(self)@ == set_status_rows(old(self)@, id, FactStatus::Stale, Some(now)),
    {
        self.set_status(id, FactStatus::Stale, Some(now));
        Ok(())
    }

    /// `mark_stale_at` at the current time.
    pub fn mark_stale(&mut self, id: i64) -> (r: Result<(), MemoryError>)
        requires
            old(self).wf(),
        ensures
            r is Ok,
            final(self).wf(),
            final(self).last_id() == old(self).last_id(),
            exists|now: i64| 0 <= now && final(self)@ == set_status_rows(old(self)@, id, FactStatus::Stale, Some(now)),
    {
        let now = now_secs();
        self.mark_stale_at(id, now)
    }

    /// Mark row `id` unknown: still listed, rendered with a warning marker.
    pub fn mark_unknown(&mut self, id: i64) -> (r: Result<(), MemoryError>)
        requires
            old(self).wf(),
        ensures
            r is Ok,
            final(self).wf(),
            final(self).last_id() == old(self).last_id(),
            final(self)@ == set_status_only_rows(old(self)@, id, FactStatus::Unknown),
    {
        let ghost rows = self@;
        match self.find_id(id) {
            Some(i) => {
                proof { lemma_id_index_from(rows, id, 0); }
                let mut f = self.rows[i].duplicate();
                f.status = FactStatus::Unknown;
                self.rows.set(i, f);
                proof {
                    assert(self@ =~= rows.update(i as int, f@));
                    lemma_update_keeps_wf(rows, self.last_id, i as int, f@);
                    lemma_map_one_row(rows, self.last_id, i as int, f@, set_status_only_rows(rows, id, FactStatus::Unknown));
                }
            },
            None => {
                proof {
                    lemma_id_index_from(rows, id, 0);
                    assert(set_status_only_rows(rows, id, FactStatus::Unknown) =~= rows);
                }
            },
        }
        Ok(())
    }

    /// Make row `id` active again and clear its `stale_at`. Refused, with the
    /// table unchanged, when its slot already has another active row.
    pub fn mark_active(&mut self, id: i64) -> (r: Result<(), MemoryError>)
        requires
            old(self).wf(),
        ensures
            final(self).wf(),
            final(self).last_id() == old(self).last_id(),
            match r {
                Ok(()) => !revive_conflicts(old(self)@, id) && final(self)@ == set_status_rows(old(self)@, id, FactStatus::Active, None),
                Err(e) => e == MemoryError::SlotTaken && revive_conflicts(old(self)@, id) && final(self)@ == old(self)@,
            },
    {
        let ghost rows = self@;
        match self.find_id(id) {
            Some(i) => {
                proof { lemma_id_index_from(rows, id, 0); }
                if self.rows[i].status != FactStatus::Active {
                    let sc: &str = match &self.rows[i].skill_scope {
                        Some(x) => x.as_str(),
                        None => "",
                    };
                    proof { reveal_strlit(""); }
                    assert(sc@ == scope_key(rows[i as int].scope));
                    if self.find_slot(self.rows[i].kind, self.rows[i].slug.as_str(), sc).is_some() {
                        return Err(MemoryError::SlotTaken);
                    }
                }
                let mut f = self.rows[i].duplicate();
                f.status = FactStatus::Active;
                f.stale_at = None;
                self.rows.set(i, f);
                proof {
                    assert(self@ =~= rows.update(i as int, f@));
                    lemma_update_keeps_wf(rows, self.last_id, i as int, f@);
                    lemma_map_one_row(rows, self.last_id, i as int, f@, set_status_rows(rows, id, FactStatus::Active, None));
                }
                Ok(())
            },
            None => {
                proof {
                    lemma_id_index_from(rows, id, 0);
                    assert(set_status_rows(rows, id, FactStatus::Active, None) =~= rows);
                }
                Ok(())
            },
        }
    }

    /// Id of the active row of slot `(kind, slug, scope)`, if any.
    pub fn find_active_slug(&self, kind: FactKind, slug: &str, skill_scope: Option<&str>) -> (r: Result<Option<i64>, MemoryError>)
        requires
            self.wf(),
        ensures
            r is Ok,
            match r->Ok_0 {
                Some(id) => {
                    let i = slot_index(self@, kind, slug@, scope_key(skill_scope.deep_view()));
                    i >= 0 && self@[i].id == id
                },
                None => slot_index(self@, kind, slug@, scope_key(skill_scope.deep_view())) < 0,
            },
    {
        let key: &str = match skill_scope {
            Some(sc) => sc,
            None => "",
        };
        proof {
            reveal_strlit("");
            assert(key@ == scope_key(skill_scope.deep_view()));
        }
        match self.find_slot(kind, slug, key) {
            Some(i) => Ok(Some(self.rows[i].id)),
            None => Ok(None),
        }
    }

    /// The fact with id `id`, if any.
    pub fn get(&self, id: i64) -> (r: Result<Option<Fact>, MemoryError>)
        requires
            self.wf(),
        ensures
            r is Ok,
            match r->Ok_0 {
                Some(f) => id_index(self@, id) >= 0 && f@ == self@[id_index(self@, id)],
                None => id_index(self@, id) < 0,
            },
    {
        match self.find_id(id) {
            Some(i) => Ok(Some(self.rows[i].duplicate())),
            None => Ok(None),
        }
    }

    /// Content of the first `profile/user` fact, if any.
    pub fn profile(&self) -> (r: Result<Option<String>, MemoryError>)
        requires
            self.wf(),
        ensures
            r is Ok,
            r->Ok_0.deep_view() == profile_from(self@, 0),
    {
        let mut i: usize = 0;
        while i < self.rows.len()
            invariant
                i <= self.rows@.len(),
                self@.len() == self.rows@.len(),
                profile_from(self@, 0) == profile_from(self@, i as int),
            decreases self.rows@.len() - i,
        {
            if self.rows[i].kind == FactKind::Profile && str_eq(self.rows[i].slug.as_str(), "user") {
                return Ok(Some(self.rows[i].content.clone()));
            }
            i = i + 1;
        }
        Ok(None)
    }

    /// Set `last_used` of row `id` to `now` (no-op when absent).
    pub fn touch_used_at(&mut self, id: i64, now: i64) -> (r: Result<(), MemoryError>)
        requires
            old(self).wf(),
        ensures
            r is Ok,
            final(self).wf(),
            final(self).last_id() == old(self).last_id(),
            final(self)@ == touch_rows(old(self)@, id, now),
    {
        let ghost rows = self@;
        match self.find_id(id) {
            Some(i) => {
                proof { lemma_id_index_from(rows, id, 0); }
                let mut f = self.rows[i].duplicate();
                f.last_used = now;
                self.rows.set(i, f);
                proof {
                    assert(self@ =~= rows.update(i as int, f@));
                    lemma_update_keeps_wf(rows, self.last_id, i as int, f@);
                    lemma_map_one_row(rows, self.last_id, i as int, f@, touch_rows(rows, id, now));
                }
            },
            None => {
                proof {
                    lemma_id_index_from(rows, id, 0);
                    assert(touch_rows(rows, id, now) =~= rows);
                }
            },
        }
        Ok(())
    }

    /// `touch_used_at` at the current time.
    pub fn touch_used(&mut self, id: i64) -> (r: Result<(), MemoryError>)
        requires
            old(self).wf(),
        ensures
            r is Ok,
            final(self).wf(),
            exists|now: i64| 0 <= now && final(self)@ == touch_rows(old(self)@, id, now),
    {
        let now = now_secs();
        self.touch_used_at(id, now)
    }
}


/// A row as archiving `slug` leaves it: an active row with that slug
/// becomes stale at `now`; any other row stays.
pub open spec fn archived_row(r: FactView, slug: Seq<char>, now: i64) -> FactView {
    if r.slug == slug && r.status == FactStatus::Active {
        FactView { status: FactStatus::Stale, stale_at: Some(now), ..r }
    } else {
        r
    }
}

pub open spec fn archive_rows(rows: Seq<FactView>, slug: Seq<char>, now: i64) -> Seq<FactView> {
    rows.map_values(|r: FactView| archived_row(r, slug, now))
}

/// How many active rows carry `slug`.
pub open spec fn active_named(rows: Seq<FactView>, slug: Seq<char>) -> nat
    decreases rows.len(),
{
    if rows.len() == 0 {
        0
    } else {
        active_named(rows.drop_last(), slug) + if rows.last().slug == slug && rows.last().status == FactStatus::Active {
            1nat
        } else {
            0nat
        }
    }
}

/// Reviving `slug` from row `k` on, in table order: each archived or
/// unknown row with that slug becomes active (with no archive time) unless
/// its slot already has an active row by then; with the number revived.
pub open spec fn revive_from(rows: Seq<FactView>, slug: Seq<char>, k: int) -> (Seq<FactView>, nat)
    decreases rows.len() - k,
{
    if k < 0 || k >= rows.len() {
        (rows, 0nat)
    } else {
        let r = rows[k];
        if r.slug == slug && r.status != FactStatus::Active && !revive_conflicts(rows, r.id) {
            let next = set_status_rows(rows, r.id, FactStatus::Active, None);
            let (out, n) = revive_from(next, slug, k + 1);
            (out, n + 1)
        } else {
            revive_from(rows, slug, k + 1)
        }
    }
}

impl MemoryStore {
    /// Archive every active row named `slug` (any kind or scope) at time
    /// `now`; returns how many were archived.
    pub fn archive_slug_at(&mut self, slug: &str, now: i64) -> (r: usize)
        requires
            old(self).wf(),
        ensures
            final(self).wf(),
            final(self).last_id() == old(self).last_id(),
            final(self)@ == archive_rows(old(self)@, slug@, now),
            r == active_named(old(self)@, slug@),
    {
        let ghost rows0 = self@;
        let ghost lid = self.last_id;
        let mut n: usize = 0;
        let mut i: usize = 0;
        while i < self.rows.len()
            invariant
                self@.len() == rows0.len(),
                self.last_id == lid,
                i <= rows0.len(),
                rows_wf(self@, self.last_id),
                forall|j: int| 0 <= j < i ==> self@[j] == archived_row(rows0[j], slug@, now),
                forall|j: int| i <= j < rows0.len() ==> self@[j] == rows0[j],
                n == active_named(rows0.take(i as int), slug@),
                n <= i,
            decreases rows0.len() - i,
        {
            assert(rows0.take(i + 1).drop_last() =~= rows0.take(i as int));
            assert(rows0.take(i + 1).last() == rows0[i as int]);
            assert(self@[i as int] == rows0[i as int]);
            if self.rows[i].status == FactStatus::Active && str_eq(self.rows[i].slug.as_str(), slug) {
                let mut f = self.rows[i].duplicate();
                f.status = FactStatus::Stale;
                f.stale_at = Some(now);
                let ghost cur = self@;
                self.rows.set(i, f);
                proof {
                    assert(self@ =~= cur.update(i as int, f@));
                    lemma_update_keeps_wf(cur, self.last_id, i as int, f@);
                }
                n = n + 1;
            }
            i = i + 1;
        }
        assert(rows0.take(i as int) =~= rows0);
        assert(self@ =~= archive_rows(rows0, slug@, now));
        n
    }

    /// `archive_slug_at` at the current time.
    pub fn archive_slug(&mut self, slug: &str) -> (r: usize)
        requires
            old(self).wf(),
        ensures
            final(self).wf(),
            final(self).last_id() == old(self).last_id(),
            exists|now: i64| 0 <= now && final(self)@ == archive_rows(old(self)@, slug@, now),
            r == active_named(old(self)@, slug@),
    {
        let now = now_secs();
        self.archive_slug_at(slug, now)
    }

    /// Revive the archived and unknown rows named `slug` (see
    /// `revive_from`); returns how many became active.
    pub fn revive_slug(&mut self, slug: &str) -> (r: usize)
        requires
            old(self).wf(),
        ensures
            final(self).wf(),
            final(self).last_id() == old(self).last_id(),
            (final(self)@, r as nat) == revive_from(old(self)@, slug@, 0),
    {
        let ghost rows0 = self@;
        let ghost lid = self.last_id;
        let len = self.rows.len();
        let mut n: usize = 0;
        let mut k: usize = 0;
        while k < len
            invariant
                self.wf(),
                self.last_id == lid,
                self@.len() == len,
                len == rows0.len(),
                k <= len,
                n <= k,
                revive_from(self@, slug@, k as int).0 == revive_from(rows0, slug@, 0).0,
                revive_from(self@, slug@, k as int).1 + n == revive_from(rows0, slug@, 0).1,
            decreases len - k,
        {
            let ghost cur = self@;
            assert(self.rows@.len() == self@.len());
            if self.rows[k].status != FactStatus::Active && str_eq(self.rows[k].slug.as_str(), slug) {
                let id = self.rows[k].id;
                proof {
                    assert(cur[k as int].id == id);
                    lemma_id_index_from(cur, id, 0);
                    assert(id_index(cur, id) == k as int);
                }
                match self.mark_active(id) {
                    Ok(()) => {
                        n = n + 1;
                    },
                    Err(_) => {},
                }
            }
            k = k + 1;
        }
        n
    }
}

impl MemoryStore {
    /// A table rebuilt from stored rows (in id order) and the id counter;
    /// refused when the rows break the table invariant.
    pub fn from_rows(rows: Vec<Fact>, last_id: i64) -> (r: Result<MemoryStore, MemoryError>)
        ensures
            match r {
                Ok(s) => rows_wf(facts_view(rows@), last_id) && s.wf() && s@ == facts_view(rows@) && s.last_id() == last_id,
                Err(e) => e == MemoryError::Corrupt && !rows_wf(facts_view(rows@), last_id),
            },
    {
        let ghost v = facts_view(rows@);
        if last_id < 0 {
            return Err(MemoryError::Corrupt);
        }
        let n = rows.len();
        let mut i: usize = 0;
        while i < n
            invariant
                n == rows@.len(),
                v == facts_view(rows@),
                i <= n,
                forall|a: int| 0 <= a < i ==> 0 < #[trigger] v[a].id <= last_id,
                forall|a: int, b: int| 0 <= a < b < i ==> v[a].id < v[b].id,
            decreases n - i,
        {
            let id = rows[i].id;
            assert(v[i as int].id == id);
            if id <= 0 || id > last_id {
                assert(!(0 < v[i as int].id <= last_id));
                return Err(MemoryError::Corrupt);
            }
            if i > 0 && rows[i - 1].id >= id {
                assert(v[i - 1].id == rows@[i - 1].id);
                assert(!(v[i - 1].id < v[i as int].id));
                return Err(MemoryError::Corrupt);
            }
            assert forall|x: int, y: int| 0 <= x < y < i + 1 implies v[x].id < v[y].id by {
                if y == i && x < i - 1 {
                    assert(v[x].id < v[i - 1].id);
                }
            }
            i = i + 1;
        }
        let mut a: usize = 0;
        while a < n
            invariant
                n == rows@.len(),
                v == facts_view(rows@),
                a <= n,
                forall|x: int, y: int|
                    0 <= x < a && 0 <= y < n && x != y && v[x].status == FactStatus::Active ==> !occupies(
                        v[y],
                        v[x].kind,
                        v[x].slug,
                        scope_key(v[x].scope),
                    ),
            decreases n - a,
        {
            assert(v[a as int] == rows@[a as int]@);
            if rows[a].status == FactStatus::Active {
                let sc: &str = match &rows[a].skill_scope {
                    Some(x) => x.as_str(),
                    None => "",
                };
                proof { reveal_strlit(""); }
                assert(sc@ == scope_key(v[a as int].scope));
                let mut b: usize = 0;
                while b < n
                    invariant
                        n == rows@.len(),
                        v == facts_view(rows@),
                        a < n,
                        b <= n,
                        sc@ == scope_key(v[a as int].scope),
                        v[a as int].status == FactStatus::Active,
                        forall|y: int| 0 <= y < b && a != y ==> !occupies(v[y], v[a as int].kind, v[a as int].slug, sc@),
                    decreases n - b,
                {
                    if b != a && occupies_exec(&rows[b], rows[a].kind, rows[a].slug.as_str(), sc) {
                        assert(v[b as int] == rows@[b as int]@);
                        assert(v[a as int] == rows@[a as int]@);
                        assert(v[a as int].status == FactStatus::Active);
                        assert(occupies(v[b as int], v[a as int].kind, v[a as int].slug, scope_key(v[a as int].scope)));
                        return Err(MemoryError::Corrupt);
                    }
                    b = b + 1;
                }
            }
            a = a + 1;
        }
        let s = MemoryStore { rows, last_id };
        Ok(s)
    }

    /// Every row in table (id) order.
    pub fn rows(&self) -> (r: Vec<Fact>)
        ensures
            facts_view(r@) == self@,
    {
        let mut out: Vec<Fact> = Vec::new();
        let mut i: usize = 0;
        while i < self.rows.len()
            invariant
                i <= self.rows@.len(),
                facts_view(out@) == facts_view(self.rows@.take(i as int)),
            decreases self.rows@.len() - i,
        {
            let ghost old_out = out@;
            let d = self.rows[i].duplicate();
            out.push(d);
            proof {
                assert(out@ =~= old_out.push(d));
                assert(self.rows@.take(i + 1) =~= self.rows@.take(i as int).push(self.rows@[i as int]));
                assert(facts_view(out@) =~= facts_view(old_out).push(self.rows@[i as int]@));
                assert(facts_view(self.rows@.take(i + 1)) =~= facts_view(self.rows@.take(i as int)).push(self.rows@[i as int]@));
            }
            i = i + 1;
        }
        assert(self.rows@.take(i as int) =~= self.rows@);
        out
    }

    /// The largest id handed out so far.
    pub fn last_id_value(&self) -> (r: i64)
        ensures
            r == self.last_id(),
    {
        self.last_id
    }
}

/// How one fact reads in the prompt: active facts as `- slug = content`,
/// unknown ones with a warning marker that still cites the prior value,
/// archived ones not at all.
pub open spec fn fact_line(f: FactView) -> Seq<char> {
    match f.status {
        FactStatus::Active => "- "@ + f.slug + " = "@ + f.content + "\n"@,
        FactStatus::Unknown => "- "@ + f.slug + " = [UNRESOLVED — previous value `"@ + f.content
            + "` may no longer be current; ask the user before relying on it]\n"@,
        FactStatus::Stale => Seq::empty(),
    }
}

/// The behavioral scope a fact belongs to; unscoped facts are `default`.
pub open spec fn scope_or_default(s: Option<Seq<char>>) -> Seq<char> {
    match s {
        Some(x) => x,
        None => "default"@,
    }
}

/// Whether a fact goes in the section of `kind`; behavioral facts only in
/// the section of their own scope.
pub open spec fn in_section(f: FactView, kind: FactKind, scope: Seq<char>) -> bool {
    &&& f.kind == kind
    &&& kind == FactKind::Behavioral ==> scope_or_default(f.scope) == scope
}

/// The lines of a section, in the order of `facts`.
pub open spec fn section_lines(facts: Seq<FactView>, kind: FactKind, scope: Seq<char>) -> Seq<char>
    decreases facts.len(),
{
    if facts.len() == 0 {
        Seq::empty()
    } else {
        section_lines(facts.drop_last(), kind, scope) + if in_section(facts.last(), kind, scope) {
            fact_line(facts.last())
        } else {
            Seq::empty()
        }
    }
}

pub open spec fn has_section(facts: Seq<FactView>, kind: FactKind, scope: Seq<char>) -> bool {
    exists|i: int| 0 <= i < facts.len() && in_section(#[trigger] facts[i], kind, scope)
}

pub open spec fn section_header(kind: FactKind, scope: Seq<char>) -> Seq<char> {
    match kind {
        FactKind::Profile => "### Profile\n"@,
        FactKind::Concept => "### Known concepts (entities mentioned by user)\n"@,
        FactKind::Behavioral => "### Behavioral preferences (scope="@ + scope + ")\n"@,
        FactKind::State => "### Current state\n"@,
    }
}

/// A section: its header, its lines and a blank line; nothing when no fact
/// belongs to it (a section of archived facts only keeps its header).
pub open spec fn section(facts: Seq<FactView>, kind: FactKind, scope: Seq<char>) -> Seq<char> {
    if has_section(facts, kind, scope) {
        section_header(kind, scope) + section_lines(facts, kind, scope) + "\n"@
    } else {
        Seq::empty()
    }
}

pub open spec fn memory_intro() -> Seq<char> {
    "## Durable facts about the user (authoritative — do not contradict, reference when relevant)\n\n"@
}

/// The memory section of the system prompt: empty when no section has a
/// fact, else the intro and the Profile, Concept, Behavioral (of the active
/// skill's scope, `default` when none) and State sections in that order.
pub open spec fn memory_section(facts: Seq<FactView>, active_skill: Option<Seq<char>>) -> Seq<char> {
    let scope = scope_or_default(active_skill);
    if !(has_section(facts, FactKind::Profile, scope) || has_section(facts, FactKind::Concept, scope)
        || has_section(facts, FactKind::Behavioral, scope) || has_section(facts, FactKind::State, scope)) {
        Seq::empty()
    } else {
        memory_intro() + section(facts, FactKind::Profile, scope) + section(facts, FactKind::Concept, scope)
            + section(facts, FactKind::Behavioral, scope) + section(facts, FactKind::State, scope)
    }
}

/// One fact rendered as a prompt line.
pub fn format_fact_line(f: &Fact) -> (r: String)
    ensures
        r@ == fact_line(f@),
{
    match f.status {
        FactStatus::Active => {
            let mut out = String::from_str("- ");
            out.append(f.slug.as_str());
            out.append(" = ");
            out.append(f.content.as_str());
            out.append("\n");
            out
        },
        FactStatus::Unknown => {
            let mut out = String::from_str("- ");
            out.append(f.slug.as_str());
            out.append(" = [UNRESOLVED — previous value `");
            out.append(f.content.as_str());
            out.append("` may no longer be current; ask the user before relying on it]\n");
            out
        },
        FactStatus::Stale => {
            let out = String::new();
            out
        },
    }
}

fn in_section_exec(f: &Fact, kind: FactKind, scope: &str) -> (r: bool)
    ensures
        r == in_section(f@, kind, scope@),
{
    if f.kind != kind {
        return false;
    }
    if kind != FactKind::Behavioral {
        return true;
    }
    match &f.skill_scope {
        Some(sc) => str_eq(sc.as_str(), scope),
        None => str_eq("default", scope),
    }
}

fn append_section(out: &mut String, facts: &[Fact], kind: FactKind, scope: &str)
    ensures
        final(out)@ == old(out)@ + section(facts_view(facts@), kind, scope@),
{
    let ghost fv = facts_view(facts@);
    let mut body = String::new();
    let mut any = false;
    let mut i: usize = 0;
    while i < facts.len()
        invariant
            fv == facts_view(facts@),
            i <= facts@.len(),
            body@ == section_lines(fv.take(i as int), kind, scope@),
            any == exists|j: int| 0 <= j < i && in_section(#[trigger] fv[j], kind, scope@),
        decreases facts@.len() - i,
    {
        assert(fv[i as int] == facts@[i as int]@);
        let inside = in_section_exec(&facts[i], kind, scope);
        if inside {
            let line = format_fact_line(&facts[i]);
            body.append(line.as_str());
            any = true;
        }
        proof {
            let t1 = fv.take(i + 1);
            assert(t1.drop_last() =~= fv.take(i as int));
            assert(t1.last() == fv[i as int]);
        }
        i = i + 1;
    }
    assert(fv.take(i as int) =~= fv);
    if any {
        let header = match kind {
            FactKind::Profile => String::from_str("### Profile\n"),
            FactKind::Concept => String::from_str("### Known concepts (entities mentioned by user)\n"),
            FactKind::Behavioral => {
                let mut h = String::from_str("### Behavioral preferences (scope=");
                h.append(scope);
                h.append(")\n");
                h
            },
            FactKind::State => String::from_str("### Current state\n"),
        };
        out.append(header.as_str());
        out.append(body.as_str());
        out.append("\n");
        proof {
            assert(header@ == section_header(kind, scope@));
            assert(out@ =~= old(out)@ + section(fv, kind, scope@));
        }
    } else {
        assert(section(fv, kind, scope@) =~= Seq::<char>::empty());
        assert(out@ =~= old(out)@ + section(fv, kind, scope@));
    }
}

fn has_section_exec(facts: &[Fact], kind: FactKind, scope: &str) -> (r: bool)
    ensures
        r == has_section(facts_view(facts@), kind, scope@),
{
    let ghost fv = facts_view(facts@);
    let mut i: usize = 0;
    while i < facts.len()
        invariant
            fv == facts_view(facts@),
            i <= facts@.len(),
            forall|j: int| 0 <= j < i ==> !in_section(#[trigger] fv[j], kind, scope@),
        decreases facts@.len() - i,
    {
        assert(fv[i as int] == facts@[i as int]@);
        if in_section_exec(&facts[i], kind, scope) {
            return true;
        }
        i = i + 1;
    }
    false
}

/// The memory section of the system prompt for `facts` (normally `list`'s
/// result) with the behavioral facts of `active_skill` (`default` when none).
pub fn render_memory_section(facts: &[Fact], active_skill: Option<&str>) -> (r: String)
    ensures
        r@ == memory_section(facts_view(facts@), active_skill.deep_view()),
{
    let scope: &str = match active_skill {
        Some(s) => s,
        None => "default",
    };
    assert(scope@ == scope_or_default(active_skill.deep_view()));
    let hp = has_section_exec(facts, FactKind::Profile, scope);
    let hc = has_section_exec(facts, FactKind::Concept, scope);
    let hb = has_section_exec(facts, FactKind::Behavioral, scope);
    let hs = has_section_exec(facts, FactKind::State, scope);
    if !(hp || hc || hb || hs) {
        return String::new();
    }
    let mut out = String::from_str(
        "## Durable facts about the user (authoritative — do not contradict, reference when relevant)\n\n",
    );
    append_section(&mut out, facts, FactKind::Profile, scope);
    append_section(&mut out, facts, FactKind::Concept, scope);
    append_section(&mut out, facts, FactKind::Behavioral, scope);
    append_section(&mut out, facts, FactKind::State, scope);
    assert(out@ =~= memory_section(facts_view(facts@), active_skill.deep_view()));
    out
}

} // verus!
