//! The runtime core: the registry of boxes, their lifecycle, and the
//! facade operations `create`, `get`, `list_info`, `remove`, `shutdown`
//! and `metrics`.
//!
//! The registry models the persistent store's rows and the per-box
//! filesystem subtrees as plain values; the store itself and the
//! filesystem live outside and mirror the registry's decisions. Outside
//! outcomes — the freshly drawn box id, the creation timestamp, the init
//! pipeline's result, the shim's pid — arrive as arguments.

use vstd::prelude::*;

use crate::errors::{BoxliteError, BoxliteResult};
use crate::options::BoxOptions;
use crate::status::BoxStatus;
use crate::strutil::{match_at, str_eq};

verus! {

/// Timestamps are kept within the range every calendar rendering the
/// runtime uses supports (up to 9999-12-31).
pub open spec fn spec_timestamp_ok(ts: i64) -> bool {
    0 <= ts <= 253402300799
}

/// One box: its immutable creation-time row and its mutable state row.
#[derive(Debug, Clone)]
pub struct BoxRecord {
    /// Unique over the store's lifetime.
    pub id: String,
    /// Optional, globally unique.
    pub name: Option<String>,
    /// Creation time, seconds since the epoch.
    pub created_at: i64,
    pub status: BoxStatus,
    /// The shim's pid while the box runs.
    pub pid: Option<u64>,
    /// The image reference the box was created from.
    pub image: String,
    pub cpus: u8,
    pub memory_mib: u32,
    /// Remove the box when it stops.
    pub auto_remove: bool,
}

/// What `list_info`, `get_info` and `inspect` report of one box.
#[derive(Debug, Clone)]
pub struct BoxInfo {
    pub id: String,
    pub name: Option<String>,
    pub image: String,
    pub created_at: i64,
    pub status: BoxStatus,
    pub pid: Option<u64>,
    pub cpus: u8,
    pub memory_mib: u32,
}

/// The info a record presents.
pub open spec fn spec_record_info(r: BoxRecord) -> (
    Seq<char>,
    Option<Seq<char>>,
    Seq<char>,
    int,
    BoxStatus,
    Option<u64>,
    u8,
    u32,
) {
    (
        r.id@,
        match r.name {
            Some(n) => Some(n@),
            None => None,
        },
        r.image@,
        r.created_at as int,
        r.status,
        r.pid,
        r.cpus,
        r.memory_mib,
    )
}

/// The plain value of an info.
pub open spec fn spec_info_view(info: BoxInfo) -> (
    Seq<char>,
    Option<Seq<char>>,
    Seq<char>,
    int,
    BoxStatus,
    Option<u64>,
    u8,
    u32,
) {
    (
        info.id@,
        match info.name {
            Some(n) => Some(n@),
            None => None,
        },
        info.image@,
        info.created_at as int,
        info.status,
        info.pid,
        info.cpus,
        info.memory_mib,
    )
}

/// A caller's handle on one box: its id and the box-level cancellation
/// flag. `stop` cancels the handle; a cancelled handle's operations
/// return the `Stopped` error. A fresh handle from `get` starts
/// uncancelled.
#[derive(Debug, Clone)]
pub struct BoxHandle {
    pub id: String,
    pub cancelled: bool,
}

/// Aggregated runtime metrics.
#[derive(Debug, Clone, Copy, PartialEq, Eq, Structural)]
pub struct RuntimeMetrics {
    pub boxes_created_total: u64,
    pub boxes_failed_total: u64,
    pub num_running_boxes: u64,
}

/// The process-wide runtime: registry rows, the on-disk subtrees they
/// own, the shutdown flag of the root cancellation token, and counters.
#[derive(Debug, Clone)]
pub struct Runtime {
    pub boxes: Vec<BoxRecord>,
    /// Ids of the `boxes/<id>/` subtrees intended to exist on disk,
    /// in lockstep with the rows.
    pub subtrees: Vec<String>,
    /// The root cancellation token has fired.
    pub shut_down: bool,
    pub boxes_created_total: u64,
    pub boxes_failed_total: u64,
}

impl Runtime {
    /// Rows are consistent: unique ids, unique names, a subtree per row
    /// and none besides, a pid exactly while running or stopping, and
    /// timestamps a calendar can render.
    pub open spec fn wf(&self) -> bool {
        &&& (forall|i: int, j: int|
            0 <= i < j < self.boxes@.len() ==> (#[trigger] self.boxes@[i]).id@ != (
            #[trigger] self.boxes@[j]).id@)
        &&& (forall|i: int, j: int|
            0 <= i < j < self.boxes@.len() ==> ((#[trigger] self.boxes@[i]).name matches Some(a)
                ==> ((#[trigger] self.boxes@[j]).name matches Some(b) ==> a@ != b@)))
        &&& self.subtrees@.len() == self.boxes@.len()
        &&& (forall|i: int|
            0 <= i < self.boxes@.len() ==> (#[trigger] self.subtrees@[i])@ == self.boxes@[i].id@)
        &&& (forall|i: int|
            0 <= i < self.boxes@.len() ==> ((#[trigger] self.boxes@[i]).status is Running
                ==> self.boxes@[i].pid is Some))
        &&& (forall|i: int|
            0 <= i < self.boxes@.len() ==> ((#[trigger] self.boxes@[i]).pid is Some
                ==> (self.boxes@[i].status is Running || self.boxes@[i].status is Stopping)))
        &&& (forall|i: int|
            0 <= i < self.boxes@.len() ==> spec_timestamp_ok(
                (#[trigger] self.boxes@[i]).created_at,
            ))
    }

    /// A fresh runtime: no boxes, not shut down.
    pub fn new() -> (r: Self)
        ensures
            r.wf(),
            r.boxes@.len() == 0,
            r.shut_down == false,
            r.boxes_created_total == 0u64,
            r.boxes_failed_total == 0u64,
    {
        Runtime {
            boxes: Vec::new(),
            subtrees: Vec::new(),
            shut_down: false,
            boxes_created_total: 0,
            boxes_failed_total: 0,
        }
    }

    /// Some row carries this id.
    pub open spec fn spec_has_id(&self, id: Seq<char>) -> bool {
        exists|i: int| 0 <= i < self.boxes@.len() && (#[trigger] self.boxes@[i]).id@ == id
    }

    /// Some row carries this name.
    pub open spec fn spec_has_name(&self, name: Seq<char>) -> bool {
        exists|i: int|
            0 <= i < self.boxes@.len() && ((#[trigger] self.boxes@[i]).name matches Some(n) && n@
                == name)
    }

    /// Whether row `i` matches prefix `q`.
    pub open spec fn spec_id_has_prefix(&self, i: int, q: Seq<char>) -> bool {
        &&& 0 <= i < self.boxes@.len()
        &&& q.len() <= self.boxes@[i].id@.len()
        &&& self.boxes@[i].id@.subrange(0, q.len() as int) == q
    }

    /// Some row's id starts with `q`.
    pub open spec fn spec_has_id_prefix(&self, q: Seq<char>) -> bool {
        exists|i: int| self.spec_id_has_prefix(i, q)
    }

    /// How `get`, `get_info` and `remove` resolve a reference: exact name
    /// first, then an id prefix of at least twelve characters, then the
    /// full id.
    pub open spec fn spec_resolves(&self, q: Seq<char>, i: int) -> bool {
        &&& 0 <= i < self.boxes@.len()
        &&& if self.spec_has_name(q) {
            self.boxes@[i].name matches Some(n) && n@ == q
        } else if q.len() >= 12 && self.spec_has_id_prefix(q) {
            self.spec_id_has_prefix(i, q)
        } else {
            self.boxes@[i].id@ == q
        }
    }

    /// Some row resolves from `q`.
    pub open spec fn spec_resolvable(&self, q: Seq<char>) -> bool {
        exists|i: int| self.spec_resolves(q, i)
    }

    /// Find the row a reference resolves to.
    fn resolve(&self, id_or_name: &str) -> (r: Option<usize>)
        ensures
            r matches Some(i) ==> self.spec_resolves(id_or_name@, i as int),
            r is None ==> !self.spec_resolvable(id_or_name@),
    {
        let n = self.boxes.len();
        // exact name
        let mut i: usize = 0;
        while i < n
            invariant
                n == self.boxes@.len(),
                i <= n,
                forall|k: int|
                    0 <= k < i ==> !((#[trigger] self.boxes@[k]).name matches Some(nm) && nm@
                        == id_or_name@),
            decreases n - i,
        {
            match &self.boxes[i].name {
                Some(nm) => {
                    if str_eq(nm.as_str(), id_or_name) {
                        proof {
                            assert(self.spec_has_name(id_or_name@));
                        }
                        return Some(i);
                    }
                },
                None => {},
            }
            i += 1;
        }
        proof {
            if self.spec_has_name(id_or_name@) {
                let w = choose|w: int|
                    0 <= w < self.boxes@.len() && ((#[trigger] self.boxes@[w]).name matches Some(
                        nm,
                    ) && nm@ == id_or_name@);
                assert(!(self.boxes@[w].name matches Some(nm) && nm@ == id_or_name@));
            }
        }
        // id prefix, twelve characters or more
        let qlen = id_or_name.unicode_len();
        if qlen >= 12 {
            let mut j: usize = 0;
            while j < n
                invariant
                    n == self.boxes@.len(),
                    qlen == id_or_name@.len(),
                    qlen >= 12,
                    j <= n,
                    !self.spec_has_name(id_or_name@),
                    forall|k: int| 0 <= k < j ==> !self.spec_id_has_prefix(k, id_or_name@),
                decreases n - j,
            {
                let id = &self.boxes[j].id;
                let idlen = id.unicode_len();
                if qlen <= idlen && match_at(id.as_str(), id_or_name, 0) {
                    proof {
                        assert(self.boxes@[j as int].id@.subrange(0, id_or_name@.len() as int)
                            == id_or_name@);
                        assert(self.spec_id_has_prefix(j as int, id_or_name@));
                        assert(self.spec_has_id_prefix(id_or_name@));
                        assert(self.spec_resolves(id_or_name@, j as int));
                    }
                    return Some(j);
                }
                proof {
                    if self.spec_id_has_prefix(j as int, id_or_name@) {
                        assert(qlen <= idlen);
                    }
                }
                j += 1;
            }
            proof {
                if self.spec_resolvable(id_or_name@) {
                    let w = choose|w: int| self.spec_resolves(id_or_name@, w);
                    if id_or_name@.len() >= 12 && self.spec_has_id_prefix(id_or_name@) {
                        let v = choose|v: int| self.spec_id_has_prefix(v, id_or_name@);
                        assert(!self.spec_id_has_prefix(v, id_or_name@));
                    } else {
                        assert(self.boxes@[w].id@ == id_or_name@);
                        assert(self.boxes@[w].id@.subrange(0, id_or_name@.len() as int)
                            =~= id_or_name@);
                        assert(self.spec_id_has_prefix(w, id_or_name@));
                    }
                }
            }
            return None;
        }
        // full id
        let mut k: usize = 0;
        while k < n
            invariant
                n == self.boxes@.len(),
                k <= n,
                !self.spec_has_name(id_or_name@),
                forall|p: int| 0 <= p < k ==> (#[trigger] self.boxes@[p]).id@ != id_or_name@,
            decreases n - k,
        {
            if str_eq(self.boxes[k].id.as_str(), id_or_name) {
                proof {
                    if id_or_name@.len() >= 12 {
                        assert(self.boxes@[k as int].id@.subrange(0, id_or_name@.len() as int)
                            =~= id_or_name@);
                        assert(self.spec_id_has_prefix(k as int, id_or_name@));
                    }
                }
                return Some(k);
            }
            k += 1;
        }
        proof {
            if self.spec_resolvable(id_or_name@) {
                let w = choose|w: int| self.spec_resolves(id_or_name@, w);
            }
        }
        None
    }

    /// The info row `i` presents.
    fn info_at(&self, i: usize) -> (r: BoxInfo)
        requires
            i < self.boxes@.len(),
        ensures
            spec_info_view(r) == spec_record_info(self.boxes@[i as int]),
    {
        let rec = &self.boxes[i];
        BoxInfo {
            id: rec.id.clone(),
            name: match &rec.name {
                Some(n) => Some(n.clone()),
                None => None,
            },
            image: rec.image.clone(),
            created_at: rec.created_at,
            status: rec.status,
            pid: rec.pid,
            cpus: rec.cpus,
            memory_mib: rec.memory_mib,
        }
    }

    /// Resolve a reference to a fresh handle, without starting anything.
    pub fn get(&self, id_or_name: &str) -> (r: Option<BoxHandle>)
        ensures
            r matches Some(h) ==> exists|i: int|
                self.spec_resolves(id_or_name@, i) && h.id@ == (#[trigger] self.boxes@[i]).id@
                    && h.cancelled == false,
            r is None ==> !self.spec_resolvable(id_or_name@),
    {
        match self.resolve(id_or_name) {
            Some(i) => Some(BoxHandle { id: self.boxes[i].id.clone(), cancelled: false }),
            None => None,
        }
    }

    /// Resolve a reference to the info of its box.
    ///
    /// A reported `Running` box carries a pid.
    pub fn get_info(&self, id_or_name: &str) -> (r: Option<BoxInfo>)
        requires
            self.wf(),
        ensures
            r matches Some(info) ==> exists|i: int|
                self.spec_resolves(id_or_name@, i) && spec_info_view(info) == spec_record_info(
                    #[trigger] self.boxes@[i],
                ),
            r is None ==> !self.spec_resolvable(id_or_name@),
            r matches Some(info) ==> (info.status is Running ==> info.pid is Some),
    {
        match self.resolve(id_or_name) {
            Some(i) => {
                let info = self.info_at(i);
                Some(info)
            },
            None => None,
        }
    }
}

} // verus!

use vstd::prelude::*;

verus! {

/// `c + 1`, held at the top of the counter's range.
fn bump(c: u64) -> (r: u64)
    ensures
        r as int == if c < u64::MAX {
            c as int + 1
        } else {
            c as int
        },
{
    if c < u64::MAX {
        c + 1
    } else {
        c
    }
}

/// The record after its box stopped: status `Stopped`, no pid, the rest
/// untouched.
pub open spec fn spec_stopped_record(r: BoxRecord) -> BoxRecord {
    BoxRecord { status: BoxStatus::Stopped, pid: None, ..r }
}

/// The rows surviving a shutdown: auto-remove rows gone, the rest stopped.
pub open spec fn spec_after_shutdown(rows: Seq<BoxRecord>) -> Seq<BoxRecord>
    decreases rows.len(),
{
    if rows.len() == 0 {
        Seq::empty()
    } else {
        let front = spec_after_shutdown(rows.drop_last());
        if rows.last().auto_remove {
            front
        } else {
            front.push(spec_stopped_record(rows.last()))
        }
    }
}

/// How many rows are `Running`.
pub open spec fn spec_running_count(rows: Seq<BoxRecord>) -> int
    decreases rows.len(),
{
    if rows.len() == 0 {
        0
    } else {
        spec_running_count(rows.drop_last()) + if rows.last().status is Running {
            1int
        } else {
            0int
        }
    }
}

impl Runtime {
    /// Whether some row carries this name.
    fn has_name(&self, name: &str) -> (r: bool)
        ensures
            r == self.spec_has_name(name@),
    {
        let n = self.boxes.len();
        let mut i: usize = 0;
        while i < n
            invariant
                n == self.boxes@.len(),
                i <= n,
                forall|k: int|
                    0 <= k < i ==> !((#[trigger] self.boxes@[k]).name matches Some(nm) && nm@
                        == name@),
            decreases n - i,
        {
            match &self.boxes[i].name {
                Some(nm) => {
                    if str_eq(nm.as_str(), name) {
                        return true;
                    }
                },
                None => {},
            }
            i += 1;
        }
        proof {
            if self.spec_has_name(name@) {
                let w = choose|w: int|
                    0 <= w < self.boxes@.len() && ((#[trigger] self.boxes@[w]).name matches Some(
                        nm,
                    ) && nm@ == name@);
            }
        }
        false
    }

    /// Whether some row carries this id.
    fn has_id(&self, id: &str) -> (r: bool)
        ensures
            r == self.spec_has_id(id@),
    {
        let n = self.boxes.len();
        let mut i: usize = 0;
        while i < n
            invariant
                n == self.boxes@.len(),
                i <= n,
                forall|k: int| 0 <= k < i ==> (#[trigger] self.boxes@[k]).id@ != id@,
            decreases n - i,
        {
            if str_eq(self.boxes[i].id.as_str(), id) {
                return true;
            }
            i += 1;
        }
        false
    }

    /// The index of the row carrying this id.
    fn index_of_id(&self, id: &str) -> (r: Option<usize>)
        ensures
            r matches Some(i) ==> i < self.boxes@.len() && self.boxes@[i as int].id@ == id@,
            r is None ==> !self.spec_has_id(id@),
    {
        let n = self.boxes.len();
        let mut i: usize = 0;
        while i < n
            invariant
                n == self.boxes@.len(),
                i <= n,
                forall|k: int| 0 <= k < i ==> (#[trigger] self.boxes@[k]).id@ != id@,
            decreases n - i,
        {
            if str_eq(self.boxes[i].id.as_str(), id) {
                return Some(i);
            }
            i += 1;
        }
        None
    }

    /// Create a box: validate the options, write its row, run the init
    /// pipeline (whose outcome arrives as `build_error`), and hand back a
    /// handle on the configured box.
    ///
    /// The caller supplies the freshly drawn id, the creation time, and
    /// the resolved image reference. After a shutdown, creation returns
    /// the `Stopped` error. A name collision is `AlreadyExists`; a failed
    /// pipeline leaves neither a row nor a subtree behind.
    pub fn create(
        &mut self,
        options: &BoxOptions,
        name: Option<String>,
        new_id: String,
        created_at: i64,
        image: String,
        build_error: Option<BoxliteError>,
    ) -> (r: BoxliteResult<BoxHandle>)
        requires
            old(self).wf(),
            spec_timestamp_ok(created_at),
        ensures
            final(self).wf(),
            final(self).shut_down == old(self).shut_down,
            r is Err ==> final(self).boxes == old(self).boxes && final(self).subtrees == old(
                self,
            ).subtrees && final(self).boxes_created_total == old(self).boxes_created_total,
            (r is Ok) <==> (!old(self).shut_down && !(options.auto_remove && options.detach) && !(
            name matches Some(n) && old(self).spec_has_name(n@)) && !old(self).spec_has_id(new_id@)
                && build_error is None),
            old(self).shut_down ==> (r matches Err(e) && e is Stopped),
            !old(self).shut_down && options.auto_remove && options.detach ==> (r matches Err(e)
                && e is InvalidArgument),
            (!old(self).shut_down && !(options.auto_remove && options.detach) && (
            name matches Some(n) && old(self).spec_has_name(n@))) ==> (r matches Err(e)
                && e is AlreadyExists),
            (!old(self).shut_down && !(options.auto_remove && options.detach) && !(
            name matches Some(n) && old(self).spec_has_name(n@)) && old(self).spec_has_id(new_id@))
                ==> (r matches Err(e) && e is Internal),
            (!old(self).shut_down && !(options.auto_remove && options.detach) && !(
            name matches Some(n) && old(self).spec_has_name(n@)) && !old(self).spec_has_id(
                new_id@,
            )) ==> (build_error matches Some(be) ==> (r == Err::<BoxHandle, BoxliteError>(be)
                && final(self).boxes_failed_total as int == (if old(self).boxes_failed_total
                    < u64::MAX {
                    old(self).boxes_failed_total as int + 1
                } else {
                    old(self).boxes_failed_total as int
                }))),
            r matches Ok(h) ==> {
                &&& h.id@ == new_id@
                &&& h.cancelled == false
                &&& final(self).boxes@.len() == old(self).boxes@.len() + 1
                &&& final(self).boxes@.drop_last() == old(self).boxes@
                &&& final(self).boxes@.last().id@ == new_id@
                &&& (final(self).boxes@.last().name matches Some(n) <==> name matches Some(n2))
                &&& (final(self).boxes@.last().name matches Some(n) ==> (name matches Some(n2)
                    && n@ == n2@))
                &&& final(self).boxes@.last().created_at == created_at
                &&& final(self).boxes@.last().status is Configured
                &&& final(self).boxes@.last().pid is None
                &&& final(self).boxes@.last().image@ == image@
                &&& final(self).boxes@.last().cpus as int == (match options.cpus {
                    Some(c) => c as int,
                    None => 1,
                })
                &&& final(self).boxes@.last().memory_mib as int == (match options.memory_mib {
                    Some(m) => m as int,
                    None => 512,
                })
                &&& final(self).boxes@.last().auto_remove == options.auto_remove
                &&& final(self).subtrees@.drop_last() == old(self).subtrees@
                &&& final(self).subtrees@.last()@ == new_id@
                &&& final(self).boxes_created_total as int == (if old(self).boxes_created_total
                    < u64::MAX {
                    old(self).boxes_created_total as int + 1
                } else {
                    old(self).boxes_created_total as int
                })
            },
    {
        if self.shut_down {
            return Err(
                BoxliteError::Stopped(String::from_str("runtime is shut down; cannot create boxes")),
            );
        }
        match options.sanitize() {
            Ok(_) => {},
            Err(e) => {
                return Err(e);
            },
        }
        match &name {
            Some(n) => {
                if self.has_name(n.as_str()) {
                    return Err(BoxliteError::AlreadyExists(n.clone()));
                }
            },
            None => {},
        }
        if self.has_id(new_id.as_str()) {
            return Err(BoxliteError::Internal(String::from_str("box id collision")));
        }
        match build_error {
            Some(e) => {
                // The pipeline failed: the row and subtree written for the
                // build are gone again; only the failure counter moves.
                self.boxes_failed_total = bump(self.boxes_failed_total);
                return Err(e);
            },
            None => {},
        }
        let cpus: u8 = match options.cpus {
            Some(c) => c,
            None => 1,
        };
        let memory_mib: u32 = match options.memory_mib {
            Some(m) => m,
            None => 512,
        };
        let handle = BoxHandle { id: new_id.clone(), cancelled: false };
        let subtree_id = new_id.clone();
        let record = BoxRecord {
            id: new_id,
            name,
            created_at,
            status: BoxStatus::Configured,
            pid: None,
            image,
            cpus,
            memory_mib,
            auto_remove: options.auto_remove,
        };
        self.boxes.push(record);
        self.subtrees.push(subtree_id);
        self.boxes_created_total = bump(self.boxes_created_total);
        proof {
            assert(self.boxes@.drop_last() =~= old(self).boxes@);
            assert(self.subtrees@.drop_last() =~= old(self).subtrees@);
        }
        Ok(handle)
    }

    /// Aggregated metrics: creation counters and how many boxes run now.
    pub fn metrics(&self) -> (r: RuntimeMetrics)
        ensures
            r.boxes_created_total == self.boxes_created_total,
            r.boxes_failed_total == self.boxes_failed_total,
            r.num_running_boxes as int == spec_running_count(self.boxes@),
    {
        let n = self.boxes.len();
        let mut running: u64 = 0;
        let mut i: usize = 0;
        proof {
            assert(self.boxes@.take(0) =~= Seq::<BoxRecord>::empty());
        }
        while i < n
            invariant
                n == self.boxes@.len(),
                i <= n,
                running as int == spec_running_count(self.boxes@.take(i as int)),
                running as int <= i,
            decreases n - i,
        {
            proof {
                assert(self.boxes@.take(i as int + 1).drop_last() =~= self.boxes@.take(i as int));
                assert(self.boxes@.take(i as int + 1).last() == self.boxes@[i as int]);
            }
            if self.boxes[i].status.is_running() {
                running = running + 1;
            }
            i += 1;
        }
        proof {
            assert(self.boxes@.take(n as int) =~= self.boxes@);
        }
        RuntimeMetrics {
            boxes_created_total: self.boxes_created_total,
            boxes_failed_total: self.boxes_failed_total,
            num_running_boxes: running,
        }
    }
}

// ============================================================================
// Laws of the registry
// ============================================================================

/// The `box_config` rows and the on-disk subtrees correspond one to one in
/// every well-formed runtime — and every operation of the registry keeps
/// the runtime well-formed.
pub proof fn lemma_rows_match_subtrees(rt: &Runtime)
    requires
        rt.wf(),
    ensures
        rt.subtrees@.len() == rt.boxes@.len(),
        forall|i: int|
            0 <= i < rt.boxes@.len() ==> (#[trigger] rt.subtrees@[i])@ == rt.boxes@[i].id@,
{
}

/// A box reported `Running` records a shim pid, in every well-formed
/// runtime.
pub proof fn lemma_running_box_has_pid(rt: &Runtime, i: int)
    requires
        rt.wf(),
        0 <= i < rt.boxes@.len(),
        rt.boxes@[i].status is Running,
    ensures
        rt.boxes@[i].pid is Some,
{
}

} // verus!

use vstd::prelude::*;

verus! {

/// Inserting an info inserts its view into the view multiset.
proof fn lemma_info_views_insert_multiset(s: Seq<BoxInfo>, p: int, x: BoxInfo)
    requires
        0 <= p <= s.len(),
    ensures
        s.insert(p, x).map_values(|b: BoxInfo| spec_info_view(b)).to_multiset() == s.map_values(
            |b: BoxInfo| spec_info_view(b),
        ).to_multiset().insert(spec_info_view(x)),
{
    broadcast use vstd::seq_lib::group_to_multiset_ensures;

    let f = |b: BoxInfo| spec_info_view(b);
    let left = s.take(p);
    let right = s.skip(p);
    assert(s.insert(p, x) =~= left.push(x) + right);
    assert(s =~= left + right);
    assert((left.push(x) + right).map_values(f) =~= left.map_values(f).push(f(x)) + right.map_values(
        f,
    ));
    assert((left + right).map_values(f) =~= left.map_values(f) + right.map_values(f));
    vstd::seq_lib::lemma_multiset_commutative(left.map_values(f).push(f(x)), right.map_values(f));
    vstd::seq_lib::lemma_multiset_commutative(left.map_values(f), right.map_values(f));
    assert(left.map_values(f).push(f(x)).to_multiset() =~= left.map_values(f).to_multiset().insert(
        f(x),
    ));
    assert(s.insert(p, x).map_values(f).to_multiset() =~= s.map_values(f).to_multiset().insert(
        f(x),
    ));
}

impl Runtime {
    /// The infos of all boxes, sorted by creation time: the same boxes the
    /// rows hold, in non-decreasing `created_at` order.
    pub fn list_info(&self) -> (r: Vec<BoxInfo>)
        ensures
            r@.len() == self.boxes@.len(),
            forall|i: int, j: int|
                0 <= i < j < r@.len() ==> (#[trigger] r@[i]).created_at <= (
                #[trigger] r@[j]).created_at,
            r@.map_values(|b: BoxInfo| spec_info_view(b)).to_multiset() == self.boxes@.map_values(
                |b: BoxRecord| spec_record_info(b),
            ).to_multiset(),
    {
        broadcast use vstd::seq_lib::group_to_multiset_ensures;

        let ghost f = |b: BoxInfo| spec_info_view(b);
        let ghost g = |b: BoxRecord| spec_record_info(b);
        let n = self.boxes.len();
        let mut out: Vec<BoxInfo> = Vec::new();
        proof {
            assert(out@.map_values(f).to_multiset() =~= self.boxes@.take(0).map_values(
                g,
            ).to_multiset());
        }
        let mut idx: usize = 0;
        while idx < n
            invariant
                n == self.boxes@.len(),
                idx <= n,
                f == (|b: BoxInfo| spec_info_view(b)),
                g == (|b: BoxRecord| spec_record_info(b)),
                out@.len() == idx,
                out@.map_values(f).to_multiset() == self.boxes@.take(idx as int).map_values(
                    g,
                ).to_multiset(),
                forall|i: int, j: int|
                    0 <= i < j < out@.len() ==> (#[trigger] out@[i]).created_at <= (
                    #[trigger] out@[j]).created_at,
            decreases n - idx,
        {
            let x = self.info_at(idx);
            let ghost xv = spec_info_view(x);
            let m = out.len();
            let mut p: usize = 0;
            loop
                invariant
                    m == out@.len(),
                    p <= m,
                    forall|k: int| 0 <= k < p ==> (#[trigger] out@[k]).created_at <= x.created_at,
                ensures
                    p <= m,
                    forall|k: int| 0 <= k < p ==> (#[trigger] out@[k]).created_at <= x.created_at,
                    p < m ==> x.created_at <= out@[p as int].created_at,
                decreases m - p,
            {
                if p >= m {
                    break ;
                }
                if out[p].created_at > x.created_at {
                    break ;
                }
                p += 1;
            }
            let ghost old_out = out@;
            out.insert(p, x);
            proof {
                assert forall|i: int, j: int| 0 <= i < j < out@.len() implies (
                #[trigger] out@[i]).created_at <= (#[trigger] out@[j]).created_at by {
                    let pi = p as int;
                    if j < pi {
                        assert(out@[i] == old_out[i] && out@[j] == old_out[j]);
                    } else if j == pi {
                        assert(out@[i] == old_out[i]);
                    } else if i < pi {
                        assert(out@[i] == old_out[i] && out@[j] == old_out[j - 1]);
                    } else if i == pi {
                        assert(out@[j] == old_out[j - 1]);
                    } else {
                        assert(out@[i] == old_out[i - 1] && out@[j] == old_out[j - 1]);
                    }
                }
                let pre = self.boxes@.take(idx as int);
                let cur = self.boxes@.take(idx as int + 1);
                assert(cur.drop_last() =~= pre);
                assert(cur.last() == self.boxes@[idx as int]);
                assert(cur.map_values(g) =~= pre.map_values(g).push(g(self.boxes@[idx as int])));
                lemma_info_views_insert_multiset(old_out, p as int, x);
                vstd::seq_lib::to_multiset_build::<
                    (Seq<char>, Option<Seq<char>>, Seq<char>, int, BoxStatus, Option<u64>, u8, u32),
                >(pre.map_values(g), g(self.boxes@[idx as int]));
                assert(cur.map_values(g).to_multiset() == pre.map_values(g).push(
                    g(self.boxes@[idx as int]),
                ).to_multiset());
                assert(out@.map_values(f).to_multiset() =~= cur.map_values(g).to_multiset());
            }
            idx += 1;
        }
        proof {
            assert(self.boxes@.take(n as int) =~= self.boxes@);
        }
        out
    }

    /// Remove a box: refuse a running box unless forced, then forget the
    /// row and its subtree. A forced removal of a running box stops it
    /// first and removes it all the same.
    pub fn remove(&mut self, id_or_name: &str, force: bool) -> (r: BoxliteResult<()>)
        requires
            old(self).wf(),
        ensures
            final(self).wf(),
            final(self).shut_down == old(self).shut_down,
            r is Err ==> final(self).boxes == old(self).boxes && final(self).subtrees == old(
                self,
            ).subtrees,
            (r matches Err(e) && e is NotFound) <==> !old(self).spec_resolvable(id_or_name@),
            r matches Err(e) && e is InvalidState ==> exists|i: int|
                old(self).spec_resolves(id_or_name@, i) && (#[trigger] old(self).boxes@[i]).status
                    is Running && !force,
            (old(self).spec_resolvable(id_or_name@) && !force && (forall|i: int|
                old(self).spec_resolves(id_or_name@, i) ==> (#[trigger] old(
                    self,
                ).boxes@[i]).status is Running)) ==> (r matches Err(e) && e is InvalidState),
            (old(self).spec_resolvable(id_or_name@) && (force || (forall|i: int|
                old(self).spec_resolves(id_or_name@, i) ==> !((#[trigger] old(
                    self,
                ).boxes@[i]).status is Running)))) ==> r is Ok,
            r is Ok ==> exists|i: int|
                {
                    &&& old(self).spec_resolves(id_or_name@, i)
                    &&& !((#[trigger] old(self).boxes@[i]).status is Running) || force
                    &&& final(self).boxes@ == old(self).boxes@.remove(i)
                    &&& final(self).subtrees@ == old(self).subtrees@.remove(i)
                },
    {
        let idx = match self.resolve(id_or_name) {
            Some(i) => i,
            None => {
                return Err(BoxliteError::NotFound(String::from_str(id_or_name)));
            },
        };
        if self.boxes[idx].status.is_running() && !force {
            return Err(
                BoxliteError::InvalidState(
                    String::from_str("box is running; stop it first or remove with force"),
                ),
            );
        }
        let ghost old_boxes = self.boxes@;
        let ghost old_subtrees = self.subtrees@;
        self.boxes.remove(idx);
        self.subtrees.remove(idx);
        proof {
            let gi = idx as int;
            assert forall|a: int, b: int| 0 <= a < b < self.boxes@.len() implies (
            #[trigger] self.boxes@[a]).id@ != (#[trigger] self.boxes@[b]).id@ by {
                let a0 = if a < gi {
                    a
                } else {
                    a + 1
                };
                let b0 = if b < gi {
                    b
                } else {
                    b + 1
                };
                assert(self.boxes@[a] == old_boxes[a0] && self.boxes@[b] == old_boxes[b0]);
            }
            assert forall|a: int, b: int| 0 <= a < b < self.boxes@.len() implies ((
            #[trigger] self.boxes@[a]).name matches Some(x) ==> ((
            #[trigger] self.boxes@[b]).name matches Some(y) ==> x@ != y@)) by {
                let a0 = if a < gi {
                    a
                } else {
                    a + 1
                };
                let b0 = if b < gi {
                    b
                } else {
                    b + 1
                };
                assert(self.boxes@[a] == old_boxes[a0] && self.boxes@[b] == old_boxes[b0]);
            }
            assert forall|a: int| 0 <= a < self.boxes@.len() implies (
            #[trigger] self.subtrees@[a])@ == self.boxes@[a].id@ && (self.boxes@[a].status
                is Running ==> self.boxes@[a].pid is Some) && (self.boxes@[a].pid is Some ==> (
            self.boxes@[a].status is Running || self.boxes@[a].status is Stopping))
                && spec_timestamp_ok(self.boxes@[a].created_at) by {
                let a0 = if a < gi {
                    a
                } else {
                    a + 1
                };
                assert(self.boxes@[a] == old_boxes[a0] && self.subtrees@[a] == old_subtrees[a0]);
            }
        }
        Ok(())
    }

    /// Stop a box: cancel its handle's token subtree, record it stopped,
    /// and — where it was created with `auto_remove` — forget its row and
    /// subtree.
    pub fn stop_box(&mut self, handle: &mut BoxHandle) -> (r: BoxliteResult<()>)
        requires
            old(self).wf(),
        ensures
            final(self).wf(),
            final(self).shut_down == old(self).shut_down,
            final(handle).id == old(handle).id,
            old(handle).cancelled ==> (r matches Err(e) && e is Stopped) && *final(self) == *old(self)
                && *final(handle) == *old(handle),
            !old(handle).cancelled && !old(self).spec_has_id(old(handle).id@) ==> (r matches Err(e)
                && e is NotFound) && *final(self) == *old(self) && *final(handle) == *old(handle),
            !old(handle).cancelled && old(self).spec_has_id(old(handle).id@) ==> r is Ok
                && final(handle).cancelled && exists|i: int|
                {
                    &&& 0 <= i < old(self).boxes@.len()
                    &&& (#[trigger] old(self).boxes@[i]).id@ == old(handle).id@
                    &&& if old(self).boxes@[i].auto_remove {
                        final(self).boxes@ == old(self).boxes@.remove(i) && final(self).subtrees@
                            == old(self).subtrees@.remove(i)
                    } else {
                        final(self).boxes@ == old(self).boxes@.update(
                            i,
                            spec_stopped_record(old(self).boxes@[i]),
                        ) && final(self).subtrees@ == old(self).subtrees@
                    }
                },
    {
        if handle.cancelled {
            return Err(BoxliteError::Stopped(String::from_str("box is already stopped")));
        }
        let idx = match self.index_of_id(handle.id.as_str()) {
            Some(i) => i,
            None => {
                return Err(BoxliteError::NotFound(handle.id.clone()));
            },
        };
        handle.cancelled = true;
        let ghost old_boxes = self.boxes@;
        let ghost old_subtrees = self.subtrees@;
        let gi = idx;
        if self.boxes[idx].auto_remove {
            self.boxes.remove(idx);
            self.subtrees.remove(idx);
            proof {
                let gix = gi as int;
                assert forall|a: int, b: int| 0 <= a < b < self.boxes@.len() implies (
                #[trigger] self.boxes@[a]).id@ != (#[trigger] self.boxes@[b]).id@ by {
                    let a0 = if a < gix {
                        a
                    } else {
                        a + 1
                    };
                    let b0 = if b < gix {
                        b
                    } else {
                        b + 1
                    };
                    assert(self.boxes@[a] == old_boxes[a0] && self.boxes@[b] == old_boxes[b0]);
                }
                assert forall|a: int, b: int| 0 <= a < b < self.boxes@.len() implies ((
                #[trigger] self.boxes@[a]).name matches Some(x) ==> ((
                #[trigger] self.boxes@[b]).name matches Some(y) ==> x@ != y@)) by {
                    let a0 = if a < gix {
                        a
                    } else {
                        a + 1
                    };
                    let b0 = if b < gix {
                        b
                    } else {
                        b + 1
                    };
                    assert(self.boxes@[a] == old_boxes[a0] && self.boxes@[b] == old_boxes[b0]);
                }
                assert forall|a: int| 0 <= a < self.boxes@.len() implies (
                #[trigger] self.subtrees@[a])@ == self.boxes@[a].id@ && (self.boxes@[a].status
                    is Running ==> self.boxes@[a].pid is Some) && (self.boxes@[a].pid is Some ==> (
                self.boxes@[a].status is Running || self.boxes@[a].status is Stopping))
                    && spec_timestamp_ok(self.boxes@[a].created_at) by {
                    let a0 = if a < gix {
                        a
                    } else {
                        a + 1
                    };
                    assert(self.boxes@[a] == old_boxes[a0] && self.subtrees@[a]
                        == old_subtrees[a0]);
                }
            }
        } else {
            let mut rec = self.boxes.remove(idx);
            rec.status = BoxStatus::Stopped;
            rec.pid = None;
            self.boxes.insert(idx, rec);
            proof {
                let gix = gi as int;
                assert(self.boxes@ =~= old_boxes.update(gix, spec_stopped_record(old_boxes[gix])));
                assert forall|a: int| 0 <= a < self.boxes@.len() implies (#[trigger] self.boxes@[a]).id@
                    == old_boxes[a].id@ && (self.boxes@[a].name matches Some(x) <==> old_boxes[a].name
                    matches Some(y)) by {
                    if a != gix {
                        assert(self.boxes@[a] == old_boxes[a]);
                    }
                }
                assert forall|a: int, b: int| 0 <= a < b < self.boxes@.len() implies ((
                #[trigger] self.boxes@[a]).name matches Some(x) ==> ((
                #[trigger] self.boxes@[b]).name matches Some(y) ==> x@ != y@)) by {
                    assert(self.boxes@[a].name == old_boxes[a].name);
                    assert(self.boxes@[b].name == old_boxes[b].name);
                }
            }
        }
        Ok(())
    }

    /// Whether a handle may run commands and report metrics: its box must
    /// not be cancelled and must be running.
    pub fn box_operable(&self, handle: &BoxHandle) -> (r: BoxliteResult<()>)
        requires
            self.wf(),
        ensures
            (r is Ok) <==> (!handle.cancelled && exists|i: int|
                0 <= i < self.boxes@.len() && (#[trigger] self.boxes@[i]).id@ == handle.id@
                    && self.boxes@[i].status is Running),
            r matches Err(e) ==> (e is Stopped || e is NotFound),
            handle.cancelled ==> (r matches Err(e) && e is Stopped),
    {
        if handle.cancelled {
            return Err(BoxliteError::Stopped(String::from_str("box is stopped")));
        }
        match self.index_of_id(handle.id.as_str()) {
            Some(i) => {
                if self.boxes[i].status.is_running() {
                    proof {
                        assert(0 <= i < self.boxes@.len() && self.boxes@[i as int].id@ == handle.id@
                            && self.boxes@[i as int].status is Running);
                    }
                    Ok(())
                } else {
                    proof {
                        if exists|j: int|
                            0 <= j < self.boxes@.len() && (#[trigger] self.boxes@[j]).id@
                                == handle.id@ && self.boxes@[j].status is Running {
                            let j = choose|j: int|
                                0 <= j < self.boxes@.len() && (#[trigger] self.boxes@[j]).id@
                                    == handle.id@ && self.boxes@[j].status is Running;
                            if j != i as int {
                                assert(self.boxes@[j].id@ != self.boxes@[i as int].id@);
                            }
                        }
                    }
                    Err(BoxliteError::Stopped(String::from_str("box is not running")))
                }
            },
            None => Err(BoxliteError::NotFound(handle.id.clone())),
        }
    }

    /// Start (or restart) a box: record the freshly spawned shim's pid and
    /// the `Running` state. A cancelled handle is `Stopped`; only a
    /// configured or stopped box may start.
    pub fn start_box(&mut self, handle: &BoxHandle, pid: u64) -> (r: BoxliteResult<()>)
        requires
            old(self).wf(),
        ensures
            final(self).wf(),
            final(self).shut_down == old(self).shut_down,
            r is Err ==> *final(self) == *old(self),
            handle.cancelled ==> (r matches Err(e) && e is Stopped),
            !handle.cancelled && !old(self).spec_has_id(handle.id@) ==> (r matches Err(e)
                && e is NotFound),
            r is Ok <==> (!handle.cancelled && exists|i: int|
                0 <= i < old(self).boxes@.len() && (#[trigger] old(self).boxes@[i]).id@ == handle.id@
                    && (old(self).boxes@[i].status is Configured || old(self).boxes@[i].status
                    is Stopped)),
            r is Ok ==> exists|i: int|
                {
                    &&& 0 <= i < old(self).boxes@.len()
                    &&& (#[trigger] old(self).boxes@[i]).id@ == handle.id@
                    &&& final(self).boxes@ == old(self).boxes@.update(
                        i,
                        BoxRecord {
                            status: BoxStatus::Running,
                            pid: Some(pid),
                            ..old(self).boxes@[i]
                        },
                    )
                },
    {
        if handle.cancelled {
            return Err(BoxliteError::Stopped(String::from_str("box is stopped")));
        }
        let idx = match self.index_of_id(handle.id.as_str()) {
            Some(i) => i,
            None => {
                return Err(BoxliteError::NotFound(handle.id.clone()));
            },
        };
        let startable = match self.boxes[idx].status {
            BoxStatus::Configured => true,
            BoxStatus::Stopped => true,
            _ => false,
        };
        if !startable {
            proof {
                assert forall|j: int|
                    0 <= j < self.boxes@.len() && (#[trigger] self.boxes@[j]).id@ == handle.id@
                        implies !(self.boxes@[j].status is Configured || self.boxes@[j].status
                    is Stopped) by {
                    if j != idx as int {
                        assert(self.boxes@[j].id@ != self.boxes@[idx as int].id@);
                    }
                }
            }
            return Err(
                BoxliteError::InvalidState(
                    String::from_str("box cannot start from its current state"),
                ),
            );
        }
        let ghost old_boxes = self.boxes@;
        let mut rec = self.boxes.remove(idx);
        rec.status = BoxStatus::Running;
        rec.pid = Some(pid);
        self.boxes.insert(idx, rec);
        proof {
            let gix = idx as int;
            assert(self.boxes@ =~= old_boxes.update(
                gix,
                BoxRecord { status: BoxStatus::Running, pid: Some(pid), ..old_boxes[gix] },
            ));
            assert forall|a: int, b: int| 0 <= a < b < self.boxes@.len() implies ((
            #[trigger] self.boxes@[a]).name matches Some(x) ==> ((
            #[trigger] self.boxes@[b]).name matches Some(y) ==> x@ != y@)) by {
                assert(self.boxes@[a].name == old_boxes[a].name);
                assert(self.boxes@[b].name == old_boxes[b].name);
            }
            assert forall|a: int| 0 <= a < self.boxes@.len() implies (#[trigger] self.boxes@[a]).id@
                == old_boxes[a].id@ by {
                if a != gix {
                    assert(self.boxes@[a] == old_boxes[a]);
                }
            }
        }
        Ok(())
    }

    /// Shut the runtime down: fire the root cancellation token, stop every
    /// box, and forget the rows of auto-remove boxes. Afterwards `create`
    /// returns the `Stopped` error. The caller joins the concurrent stops
    /// with the timeout `timeout_to_duration` derives.
    pub fn shutdown(&mut self) -> (r: BoxliteResult<()>)
        requires
            old(self).wf(),
        ensures
            final(self).wf(),
            r is Ok,
            final(self).shut_down == true,
            final(self).boxes@ == spec_after_shutdown(old(self).boxes@),
            forall|i: int|
                0 <= i < final(self).boxes@.len() ==> (#[trigger] final(self).boxes@[i]).status
                    is Stopped,
    {
        self.shut_down = true;
        let n = self.boxes.len();
        let mut new_boxes: Vec<BoxRecord> = Vec::new();
        let mut new_subtrees: Vec<String> = Vec::new();
        let ghost mut srcs: Seq<int> = Seq::empty();
        proof {
            assert(spec_after_shutdown(self.boxes@.take(0)) =~= Seq::<BoxRecord>::empty());
            assert(new_boxes@ =~= spec_after_shutdown(self.boxes@.take(0)));
        }
        let mut i: usize = 0;
        while i < n
            invariant
                n == self.boxes@.len(),
                self.wf() || true,
                i <= n,
                srcs.len() == new_boxes@.len(),
                new_subtrees@.len() == new_boxes@.len(),
                new_boxes@ == spec_after_shutdown(self.boxes@.take(i as int)),
                forall|a: int| 0 <= a < srcs.len() ==> 0 <= #[trigger] srcs[a] < i,
                forall|a: int, b: int| 0 <= a < b < srcs.len() ==> srcs[a] < srcs[b],
                forall|a: int|
                    0 <= a < new_boxes@.len() ==> #[trigger] new_boxes@[a] == spec_stopped_record(
                        self.boxes@[srcs[a]],
                    ),
                forall|a: int|
                    0 <= a < new_boxes@.len() ==> (#[trigger] new_subtrees@[a])@
                        == new_boxes@[a].id@,
            decreases n - i,
        {
            proof {
                assert(self.boxes@.take(i as int + 1).drop_last() =~= self.boxes@.take(i as int));
                assert(self.boxes@.take(i as int + 1).last() == self.boxes@[i as int]);
            }
            let rec = &self.boxes[i];
            if !rec.auto_remove {
                let kept = BoxRecord {
                    id: rec.id.clone(),
                    name: match &rec.name {
                        Some(n) => Some(n.clone()),
                        None => None,
                    },
                    created_at: rec.created_at,
                    status: BoxStatus::Stopped,
                    pid: None,
                    image: rec.image.clone(),
                    cpus: rec.cpus,
                    memory_mib: rec.memory_mib,
                    auto_remove: rec.auto_remove,
                };
                proof {
                    assert(kept == spec_stopped_record(self.boxes@[i as int]));
                }
                let sub = kept.id.clone();
                new_boxes.push(kept);
                new_subtrees.push(sub);
                proof {
                    srcs = srcs.push(i as int);
                }
            }
            i += 1;
        }
        proof {
            assert(self.boxes@.take(n as int) =~= self.boxes@);
        }
        let ghost old_boxes = self.boxes@;
        self.boxes = new_boxes;
        self.subtrees = new_subtrees;
        proof {
            assert forall|a: int, b: int| 0 <= a < b < self.boxes@.len() implies (
            #[trigger] self.boxes@[a]).id@ != (#[trigger] self.boxes@[b]).id@ by {
                assert(self.boxes@[a] == spec_stopped_record(old_boxes[srcs[a]]));
                assert(self.boxes@[b] == spec_stopped_record(old_boxes[srcs[b]]));
                assert(old_boxes[srcs[a]].id@ != old_boxes[srcs[b]].id@);
            }
            assert forall|a: int, b: int| 0 <= a < b < self.boxes@.len() implies ((
            #[trigger] self.boxes@[a]).name matches Some(x) ==> ((
            #[trigger] self.boxes@[b]).name matches Some(y) ==> x@ != y@)) by {
                assert(self.boxes@[a].name == old_boxes[srcs[a]].name);
                assert(self.boxes@[b].name == old_boxes[srcs[b]].name);
            }
            assert forall|a: int| 0 <= a < self.boxes@.len() implies spec_timestamp_ok(
                (#[trigger] self.boxes@[a]).created_at,
            ) by {
                assert(self.boxes@[a].created_at == old_boxes[srcs[a]].created_at);
            }
        }
        Ok(())
    }
}

} // verus!

use vstd::prelude::*;

verus! {

/// Default timeout for a graceful shutdown, in seconds.
pub const DEFAULT_SHUTDOWN_TIMEOUT_SECS: i32 = 10;

/// Convert a stop/shutdown timeout parameter to seconds: none means the
/// default, `-1` means waiting forever (`None`), a positive count stands,
/// and anything else falls back to the default.
pub fn timeout_to_duration(timeout: Option<i32>) -> (r: Option<u64>)
    ensures
        r == (match timeout {
            None => Some(DEFAULT_SHUTDOWN_TIMEOUT_SECS as u64),
            Some(secs) => if secs == -1 {
                None
            } else if secs > 0 {
                Some(secs as u64)
            } else {
                Some(DEFAULT_SHUTDOWN_TIMEOUT_SECS as u64)
            },
        }),
{
    match timeout {
        None => Some(10),
        Some(secs) => {
            if secs == -1 {
                None
            } else if secs > 0 {
                Some(secs as u64)
            } else {
                Some(10)
            }
        },
    }
}

} // verus!
