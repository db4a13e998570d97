//! Reload policy for the dynamically loaded server modules: which modules are
//! loaded, which are stale, which are unloaded and whether a reload restarts.
use vstd::prelude::*;
use vstd::string::*;
use crate::text::{seq_ends_with, str_ends_with};

verus! {

/// The module whose reload asks for a full restart.
pub open spec fn restart_module_spec() -> Seq<char> {
    "conduit_service"@
}

/// The modules, in load order.
pub open spec fn module_names_spec() -> Seq<Seq<char>> {
    seq![
        "conduit_database"@,
        "conduit_service"@,
        "conduit_api"@,
        "conduit_admin"@,
        "conduit_router"@,
    ]
}

/// The modules, in load order.
pub fn module_names() -> (v: Vec<&'static str>)
    ensures
        v@.len() == module_names_spec().len(),
        forall|i: int| 0 <= i < v@.len() ==> #[trigger] v@[i]@ == module_names_spec()[i],
{
    let mut v: Vec<&'static str> = Vec::new();
    v.push("conduit_database");
    v.push("conduit_service");
    v.push("conduit_api");
    v.push("conduit_admin");
    v.push("conduit_router");
    v
}

/// The number of modules (`MODULE_NAMES.len()`).
pub fn available() -> (n: usize)
    ensures
        n == module_names_spec().len(),
{
    5
}

/// `r` is the position of the first name that ends with `suffix`, or the
/// number of names when none does.
pub open spec fn is_first_ending_with(names: Seq<Seq<char>>, suffix: Seq<char>, r: int) -> bool {
    &&& 0 <= r <= names.len()
    &&& r < names.len() ==> seq_ends_with(names[r], suffix)
    &&& forall|j: int| 0 <= j < r ==> !seq_ends_with(#[trigger] names[j], suffix)
}

/// The position of the first module whose name ends with the restart
/// module's name (modules from there on need a restart when reloaded).
pub fn restart_thresh() -> (r: usize)
    ensures
        is_first_ending_with(module_names_spec(), restart_module_spec(), r as int),
        r == restart_thresh_spec(),
{
    proof {
        lemma_restart_thresh_value();
    }
    let names = module_names();
    let suffix = "conduit_service";
    let mut i: usize = 0;
    while i < names.len()
        invariant
            i <= names@.len(),
            names@.len() == module_names_spec().len(),
            forall|k: int| 0 <= k < names@.len() ==> #[trigger] names@[k]@ == module_names_spec()[k],
            suffix@ == restart_module_spec(),
            forall|j: int| 0 <= j < i ==> !seq_ends_with(#[trigger] module_names_spec()[j], suffix@),
        decreases names.len() - i,
    {
        if str_ends_with(names[i], suffix) {
            proof {
                lemma_restart_thresh_unique(i as int);
            }
            return i;
        }
        i = i + 1;
    }
    proof {
        lemma_restart_thresh_unique(i as int);
    }
    i
}

/// The position of the first module that has been deleted on disk, or the
/// number of loaded modules when none has.
pub open spec fn stale_spec(deleted: Seq<bool>) -> int {
    choose_first_true(deleted)
}

/// The position of the first `true`, or the length when there is none.
pub open spec fn choose_first_true(s: Seq<bool>) -> int
    decreases s.len(),
{
    if s.len() == 0 {
        0
    } else if s[0] {
        0
    } else {
        1 + choose_first_true(s.drop_first())
    }
}

proof fn lemma_first_true(s: Seq<bool>, r: int)
    requires
        0 <= r <= s.len(),
        r < s.len() ==> s[r],
        forall|j: int| 0 <= j < r ==> !s[j],
    ensures
        choose_first_true(s) == r,
    decreases s.len(),
{
    if s.len() > 0 && r > 0 {
        assert(!s[0]);
        assert forall|j: int| 0 <= j < r - 1 implies !s.drop_first()[j] by {
            assert(!s[j + 1]);
        }
        lemma_first_true(s.drop_first(), r - 1);
    }
}

/// The watermark of stale modules: the first loaded module that was deleted,
/// given for each loaded module whether it was deleted.
pub fn stale(deleted: &Vec<bool>) -> (r: usize)
    ensures
        r == stale_spec(deleted@),
        r <= deleted@.len(),
{
    let mut i: usize = 0;
    while i < deleted.len()
        invariant
            i <= deleted@.len(),
            forall|j: int| 0 <= j < i ==> !deleted@[j],
        decreases deleted.len() - i,
    {
        if deleted[i] {
            proof {
                lemma_first_true(deleted@, i as int);
            }
            return i;
        }
        i = i + 1;
    }
    proof {
        lemma_first_true(deleted@, i as int);
    }
    i
}

/// How many modules are stale: the modules from the watermark to the end of
/// the module list; with no watermark, none.
pub fn stale_count(watermark: Option<usize>) -> (n: usize)
    requires
        watermark matches Some(w) ==> w <= module_names_spec().len(),
    ensures
        n == match watermark {
            Some(w) => module_names_spec().len() - w,
            None => 0,
        },
{
    let w = match watermark {
        Some(w) => w,
        None => available(),
    };
    available() - w
}

/// The modules that still have to be loaded when `loaded` of them are:
/// every module at a position that is not loaded yet, in order.
pub fn open(loaded: usize) -> (v: Vec<&'static str>)
    ensures
        loaded >= module_names_spec().len() ==> v@.len() == 0,
        loaded < module_names_spec().len() ==> v@.len() == module_names_spec().len() - loaded,
        forall|i: int| 0 <= i < v@.len() ==> #[trigger] v@[i]@ == module_names_spec()[loaded + i],
{
    let names = module_names();
    let mut v: Vec<&'static str> = Vec::new();
    let mut i: usize = loaded;
    if i >= names.len() {
        return v;
    }
    while i < names.len()
        invariant
            loaded <= i <= names@.len(),
            names@.len() == module_names_spec().len(),
            forall|k: int| 0 <= k < names@.len() ==> #[trigger] names@[k]@ == module_names_spec()[k],
            v@.len() == i - loaded,
            forall|k: int| 0 <= k < v@.len() ==> #[trigger] v@[k]@ == module_names_spec()[loaded + k],
        decreases names.len() - i,
    {
        v.push(names[i]);
        i = i + 1;
    }
    v
}

/// How many modules stay loaded when unloading from the last one backwards,
/// given for each loaded module whether it was deleted: modules are dropped
/// while `force` holds or the last one was deleted.
pub open spec fn close_spec(deleted: Seq<bool>, force: bool) -> nat
    decreases deleted.len(),
{
    if deleted.len() == 0 {
        0
    } else if force || deleted.last() {
        close_spec(deleted.drop_last(), force)
    } else {
        deleted.len()
    }
}

/// Unloads modules from the last one backwards and gives how many stay.
pub fn close(deleted: &Vec<bool>, force: bool) -> (n: usize)
    ensures
        n == close_spec(deleted@, force),
        n <= deleted@.len(),
        force ==> n == 0,
{
    let mut n: usize = deleted.len();
    assert(deleted@.take(n as int) =~= deleted@);
    while n > 0
        invariant
            n <= deleted@.len(),
            close_spec(deleted@, force) == close_spec(deleted@.take(n as int), force),
        decreases n,
    {
        assert(deleted@.take(n as int).drop_last() =~= deleted@.take(n - 1));
        if force || deleted[n - 1] {
            n = n - 1;
        } else {
            return n;
        }
    }
    assert(deleted@.take(0) =~= Seq::<bool>::empty());
    n
}

/// What to do once the running modules return: whether to stop them and
/// whether to start them again.
#[derive(Debug, Clone, Copy, PartialEq, Eq, Structural)]
pub struct RunOutcome {
    pub starts: bool,
    pub stops: bool,
    pub reloads: bool,
}

/// After a run: the modules stop unless a reload was asked for and only
/// modules past the restart threshold are stale; they start again when a
/// reload stops them.
pub fn run(reloads: bool, stale: usize) -> (r: RunOutcome)
    ensures
        r.reloads == reloads,
        r.stops == (!reloads || stale as int <= restart_thresh_spec()),
        r.starts == (reloads && r.stops),
{
    let t = restart_thresh();
    proof {
        lemma_restart_thresh_value();
        lemma_restart_thresh_unique(t as int);
    }
    let stops = !reloads || stale <= t;
    RunOutcome { starts: reloads && stops, stops, reloads }
}

/// The restart threshold.
pub open spec fn restart_thresh_spec() -> int {
    1
}

proof fn lemma_restart_thresh_value()
    ensures
        is_first_ending_with(module_names_spec(), restart_module_spec(), restart_thresh_spec()),
{
    reveal_strlit("conduit_database");
    reveal_strlit("conduit_service");
    let names = module_names_spec();
    let suf = restart_module_spec();
    assert(names[1] =~= suf);
    assert(names[1].subrange(names[1].len() - suf.len(), names[1].len() as int) =~= suf);
    assert(!seq_ends_with(names[0], suf)) by {
        if seq_ends_with(names[0], suf) {
            let sub = names[0].subrange(names[0].len() - suf.len(), names[0].len() as int);
            assert(sub[0] == suf[0]);
            assert(sub[0] == names[0][1]);
        }
    }
}

proof fn lemma_restart_thresh_unique(r: int)
    requires
        is_first_ending_with(module_names_spec(), restart_module_spec(), r),
    ensures
        r == restart_thresh_spec(),
{
    lemma_restart_thresh_value();
    let names = module_names_spec();
    if r < 1 {
        assert(seq_ends_with(names[r], restart_module_spec()));
    } else if r > 1 {
        assert(!seq_ends_with(names[1], restart_module_spec()));
    }
}

/// The restart threshold lies within the module list: the module that asks
/// for a restart is one of the modules.
pub proof fn lemma_restart_thresh_within()
    ensures
        forall|r: int| is_first_ending_with(module_names_spec(), restart_module_spec(), r)
            ==> r < module_names_spec().len(),
{
    assert forall|r: int| is_first_ending_with(module_names_spec(), restart_module_spec(), r)
        implies r < module_names_spec().len() by {
        lemma_restart_thresh_unique(r);
    }
}

} // verus!
