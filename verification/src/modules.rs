//! The module and function registry: loaded modules, their exported
//! (or heuristically found) functions sorted by address, and a cache
//! of decoded instructions per function, all answering predecessor
//! queries by address.

use vstd::multiset::Multiset;
use vstd::prelude::*;

use crate::bytes::{ascii_chars, copy_range, read_u16_le, read_u32_le, scan_cstr, spec_cstr_end, spec_hex_chars, spec_le16, spec_le32, string_from_ascii};
use crate::instr::{lemma_total_len_nonneg, lemma_total_len_take_le, lemma_total_len_take_succ, spec_total_len, InstrEntry};

verus! {

/// A loaded module: where it is mapped and how large it is.
#[derive(Debug)]
pub struct ModuleInfo {
    pub name: String,
    pub addr: usize,
    pub size: usize,
}

/// A known function of the target: its name and absolute address.
#[derive(Clone, Debug)]
pub struct FunctionInfo {
    pub name: String,
    pub addr: usize,
}

/// The registry: modules and functions sorted by address, and decoded
/// instruction runs keyed by the address they start at.
pub struct Modules {
    pub modules: Vec<ModuleInfo>,
    pub functions: Vec<FunctionInfo>,
    pub opcodes: Vec<(usize, Vec<InstrEntry>)>,
}

/// Addresses in non-decreasing order.
pub open spec fn addrs_sorted(a: Seq<int>) -> bool {
    forall|i: int, j: int| 0 <= i < j < a.len() ==> a[i] <= a[j]
}

pub open spec fn module_addrs(ms: Seq<ModuleInfo>) -> Seq<int> {
    ms.map(|i: int, m: ModuleInfo| m.addr as int)
}

pub open spec fn function_addrs(fs: Seq<FunctionInfo>) -> Seq<int> {
    fs.map(|i: int, f: FunctionInfo| f.addr as int)
}

pub open spec fn opcode_keys(os: Seq<(usize, Vec<InstrEntry>)>) -> Seq<int> {
    os.map(|i: int, b: (usize, Vec<InstrEntry>)| b.0 as int)
}

impl Modules {
    /// The registry's shape: every table sorted by address, and each
    /// instruction run short enough that walking it cannot run off the
    /// address space.
    pub open spec fn wf(&self) -> bool {
        &&& addrs_sorted(module_addrs(self.modules@))
        &&& addrs_sorted(function_addrs(self.functions@))
        &&& addrs_sorted(opcode_keys(self.opcodes@))
        &&& forall|i: int|
            0 <= i < self.opcodes@.len() ==> (#[trigger] self.opcodes@[i]).0 + spec_total_len(
                self.opcodes@[i].1@,
            ) <= usize::MAX
    }

    /// An empty registry.
    pub fn new() -> (r: Modules)
        ensures
            r.wf(),
            r.modules@.len() == 0,
            r.functions@.len() == 0,
            r.opcodes@.len() == 0,
    {
        Modules { modules: Vec::new(), functions: Vec::new(), opcodes: Vec::new() }
    }
}

/// The last position whose address does not exceed `addr`, in a list
/// of addresses.
pub open spec fn spec_pred_index(addrs: Seq<int>, addr: int) -> Option<int>
    decreases addrs.len(),
{
    if addrs.len() == 0 {
        None
    } else if addrs.last() <= addr {
        Some(addrs.len() - 1)
    } else {
        spec_pred_index(addrs.drop_last(), addr)
    }
}

/// What the predecessor position means: it holds an address at or
/// below the query and everything after it lies above the query.
pub proof fn lemma_pred_index_props(addrs: Seq<int>, addr: int)
    ensures
        match spec_pred_index(addrs, addr) {
            Some(i) => 0 <= i < addrs.len() && addrs[i] <= addr && forall|j: int|
                i < j < addrs.len() ==> addrs[j] > addr,
            None => forall|j: int| 0 <= j < addrs.len() ==> addrs[j] > addr,
        },
    decreases addrs.len(),
{
    if addrs.len() > 0 && !(addrs.last() <= addr) {
        lemma_pred_index_props(addrs.drop_last(), addr);
        let d = addrs.drop_last();
        match spec_pred_index(d, addr) {
            Some(i) => {
                assert(d[i] == addrs[i]);
                assert forall|j: int| i < j < addrs.len() implies addrs[j] > addr by {
                    if j < addrs.len() - 1 {
                        assert(addrs[j] == d[j]);
                    } else {
                        assert(addrs[j] == addrs.last());
                    }
                }
            },
            None => {
                assert forall|j: int| 0 <= j < addrs.len() implies addrs[j] > addr by {
                    if j < addrs.len() - 1 {
                        assert(addrs[j] == d[j]);
                    }
                }
            },
        }
    }
}

/// A split point of a sorted address list (everything before it at or
/// below the query, everything from it above) names the predecessor.
proof fn lemma_pred_index_from_split(addrs: Seq<int>, addr: int, k: int)
    requires
        addrs_sorted(addrs),
        0 <= k <= addrs.len(),
        forall|i: int| 0 <= i < k ==> addrs[i] <= addr,
        forall|i: int| k <= i < addrs.len() ==> addrs[i] > addr,
    ensures
        spec_pred_index(addrs, addr) == if k == 0 {
            None
        } else {
            Some(k - 1)
        },
    decreases addrs.len(),
{
    if addrs.len() > 0 && !(addrs.last() <= addr) {
        lemma_pred_index_from_split(addrs.drop_last(), addr, k);
    }
}

/// Binary search for the predecessor position in a sorted address
/// list, reading addresses out of the function table.
fn pred_index_functions(fs: &Vec<FunctionInfo>, addr: usize) -> (r: Option<usize>)
    requires
        addrs_sorted(function_addrs(fs@)),
    ensures
        match r {
            Some(i) => spec_pred_index(function_addrs(fs@), addr as int) == Some(i as int),
            None => spec_pred_index(function_addrs(fs@), addr as int) is None,
        },
{
    let ghost addrs = function_addrs(fs@);
    let mut lo: usize = 0;
    let mut hi: usize = fs.len();
    while lo < hi
        invariant
            lo <= hi <= fs.len(),
            addrs == function_addrs(fs@),
            addrs_sorted(addrs),
            forall|i: int| 0 <= i < lo ==> addrs[i] <= addr,
            forall|i: int| hi <= i < fs.len() ==> addrs[i] > addr,
        decreases hi - lo,
    {
        let mid = lo + (hi - lo) / 2;
        proof {
            assert(addrs[mid as int] == fs@[mid as int].addr);
        }
        if fs[mid].addr <= addr {
            proof {
                assert forall|i: int| 0 <= i < mid + 1 implies addrs[i] <= addr by {
                    if i >= lo {
                        assert(addrs[i] <= addrs[mid as int]);
                    }
                }
            }
            lo = mid + 1;
        } else {
            proof {
                assert forall|i: int| mid <= i < fs.len() implies addrs[i] > addr by {
                    if i > mid {
                        assert(addrs[i] >= addrs[mid as int]);
                    }
                }
            }
            hi = mid;
        }
    }
    proof {
        lemma_pred_index_from_split(addrs, addr as int, lo as int);
    }
    if lo == 0 {
        None
    } else {
        Some(lo - 1)
    }
}

/// Binary search for the predecessor position in the module table.
fn pred_index_modules(ms: &Vec<ModuleInfo>, addr: usize) -> (r: Option<usize>)
    requires
        addrs_sorted(module_addrs(ms@)),
    ensures
        match r {
            Some(i) => spec_pred_index(module_addrs(ms@), addr as int) == Some(i as int),
            None => spec_pred_index(module_addrs(ms@), addr as int) is None,
        },
{
    let ghost addrs = module_addrs(ms@);
    let mut lo: usize = 0;
    let mut hi: usize = ms.len();
    while lo < hi
        invariant
            lo <= hi <= ms.len(),
            addrs == module_addrs(ms@),
            addrs_sorted(addrs),
            forall|i: int| 0 <= i < lo ==> addrs[i] <= addr,
            forall|i: int| hi <= i < ms.len() ==> addrs[i] > addr,
        decreases hi - lo,
    {
        let mid = lo + (hi - lo) / 2;
        proof {
            assert(addrs[mid as int] == ms@[mid as int].addr);
        }
        if ms[mid].addr <= addr {
            proof {
                assert forall|i: int| 0 <= i < mid + 1 implies addrs[i] <= addr by {
                    if i >= lo {
                        assert(addrs[i] <= addrs[mid as int]);
                    }
                }
            }
            lo = mid + 1;
        } else {
            proof {
                assert forall|i: int| mid <= i < ms.len() implies addrs[i] > addr by {
                    if i > mid {
                        assert(addrs[i] >= addrs[mid as int]);
                    }
                }
            }
            hi = mid;
        }
    }
    proof {
        lemma_pred_index_from_split(addrs, addr as int, lo as int);
    }
    if lo == 0 {
        None
    } else {
        Some(lo - 1)
    }
}

/// Binary search for the predecessor position in the opcode cache.
fn pred_index_opcodes(os: &Vec<(usize, Vec<InstrEntry>)>, addr: usize) -> (r: Option<usize>)
    requires
        addrs_sorted(opcode_keys(os@)),
    ensures
        match r {
            Some(i) => spec_pred_index(opcode_keys(os@), addr as int) == Some(i as int),
            None => spec_pred_index(opcode_keys(os@), addr as int) is None,
        },
{
    let ghost addrs = opcode_keys(os@);
    let mut lo: usize = 0;
    let mut hi: usize = os.len();
    while lo < hi
        invariant
            lo <= hi <= os.len(),
            addrs == opcode_keys(os@),
            addrs_sorted(addrs),
            forall|i: int| 0 <= i < lo ==> addrs[i] <= addr,
            forall|i: int| hi <= i < os.len() ==> addrs[i] > addr,
        decreases hi - lo,
    {
        let mid = lo + (hi - lo) / 2;
        proof {
            assert(addrs[mid as int] == os@[mid as int].0);
        }
        if os[mid].0 <= addr {
            proof {
                assert forall|i: int| 0 <= i < mid + 1 implies addrs[i] <= addr by {
                    if i >= lo {
                        assert(addrs[i] <= addrs[mid as int]);
                    }
                }
            }
            lo = mid + 1;
        } else {
            proof {
                assert forall|i: int| mid <= i < os.len() implies addrs[i] > addr by {
                    if i > mid {
                        assert(addrs[i] >= addrs[mid as int]);
                    }
                }
            }
            hi = mid;
        }
    }
    proof {
        lemma_pred_index_from_split(addrs, addr as int, lo as int);
    }
    if lo == 0 {
        None
    } else {
        Some(lo - 1)
    }
}

/// The module a predecessor query returns: the last one based at or
/// below the address, except that a predecessor in first position is
/// never returned.
pub open spec fn spec_module_at(ms: Seq<ModuleInfo>, addr: int) -> Option<ModuleInfo> {
    match spec_pred_index(module_addrs(ms), addr) {
        Some(i) => if i >= 1 {
            Some(ms[i])
        } else {
            None
        },
        None => None,
    }
}

/// The function a predecessor query returns: the last one at or below
/// the address, except that a predecessor in first position is never
/// returned (an address before the second function is no function).
pub open spec fn spec_function_at(fs: Seq<FunctionInfo>, addr: int) -> Option<FunctionInfo> {
    match spec_pred_index(function_addrs(fs), addr) {
        Some(i) => if i >= 1 {
            Some(fs[i])
        } else {
            None
        },
        None => None,
    }
}

/// The decoded run a predecessor query returns, under the same
/// first-position rule.
pub open spec fn spec_batch_index(os: Seq<(usize, Vec<InstrEntry>)>, addr: int) -> Option<int> {
    match spec_pred_index(opcode_keys(os), addr) {
        Some(i) => if i >= 1 {
            Some(i)
        } else {
            None
        },
        None => None,
    }
}

impl Modules {
    /// The module mapped at the greatest base address not above
    /// `addr`, under the first-position rule.
    pub fn get_module_at(&self, addr: usize) -> (r: Option<&ModuleInfo>)
        requires
            self.wf(),
        ensures
            match r {
                Some(m) => spec_module_at(self.modules@, addr as int) == Some(*m),
                None => spec_module_at(self.modules@, addr as int) is None,
            },
    {
        match pred_index_modules(&self.modules, addr) {
            Some(i) => {
                proof {
                    lemma_pred_index_props(module_addrs(self.modules@), addr as int);
                }
                if i >= 1 {
                    Some(&self.modules[i])
                } else {
                    None
                }
            },
            None => None,
        }
    }

    /// The function at the greatest address not above `addr`, under
    /// the first-position rule.
    pub fn get_function_at(&self, addr: usize) -> (r: Option<&FunctionInfo>)
        requires
            self.wf(),
        ensures
            match r {
                Some(f) => spec_function_at(self.functions@, addr as int) == Some(*f),
                None => spec_function_at(self.functions@, addr as int) is None,
            },
    {
        match pred_index_functions(&self.functions, addr) {
            Some(i) => {
                proof {
                    lemma_pred_index_props(function_addrs(self.functions@), addr as int);
                }
                if i >= 1 {
                    Some(&self.functions[i])
                } else {
                    None
                }
            },
            None => None,
        }
    }

    /// The decoded run starting at the greatest cached address not
    /// above `addr`, under the first-position rule.
    pub fn get_instructions_at(&self, addr: usize) -> (r: Option<&(usize, Vec<InstrEntry>)>)
        requires
            self.wf(),
        ensures
            match r {
                Some(b) => {
                    &&& spec_batch_index(self.opcodes@, addr as int) matches Some(i)
                    &&& self.opcodes@[spec_batch_index(self.opcodes@, addr as int)->0] == *b
                },
                None => spec_batch_index(self.opcodes@, addr as int) is None,
            },
    {
        match pred_index_opcodes(&self.opcodes, addr) {
            Some(i) => {
                proof {
                    lemma_pred_index_props(opcode_keys(self.opcodes@), addr as int);
                }
                if i >= 1 {
                    Some(&self.opcodes[i])
                } else {
                    None
                }
            },
            None => None,
        }
    }
}

/// Where a walk from slot `k` at position `pos` first reaches `addr`:
/// the position and slot at which the accumulated address is at or
/// past the query, or nothing when the run ends first.
pub open spec fn spec_walk_to(entries: Seq<InstrEntry>, k: int, pos: int, addr: int) -> Option<
    (int, int),
>
    decreases entries.len() - k,
{
    if k < 0 || k >= entries.len() {
        None
    } else if pos >= addr {
        Some((pos, k))
    } else {
        spec_walk_to(entries, k + 1, pos + entries[k].len, addr)
    }
}

/// The same walk with a strict bound: the first position strictly
/// past the query.
pub open spec fn spec_walk_after(entries: Seq<InstrEntry>, k: int, pos: int, addr: int) -> Option<
    (int, int),
>
    decreases entries.len() - k,
{
    if k < 0 || k >= entries.len() {
        None
    } else if pos > addr {
        Some((pos, k))
    } else {
        spec_walk_after(entries, k + 1, pos + entries[k].len, addr)
    }
}

/// The first position in the function table holding a function with
/// this name.
pub open spec fn spec_find_function(fs: Seq<FunctionInfo>, name: Seq<char>) -> Option<int>
    decreases fs.len(),
{
    if fs.len() == 0 {
        None
    } else if fs.first().name@ == name {
        Some(0)
    } else {
        match spec_find_function(fs.drop_first(), name) {
            Some(i) => Some(i + 1),
            None => None,
        }
    }
}

/// Where a scan that mismatched everything before `i` ends: at `i`
/// when `i` matches, nowhere when the whole table mismatched.
proof fn lemma_find_function_at(fs: Seq<FunctionInfo>, name: Seq<char>, i: int)
    requires
        0 <= i <= fs.len(),
        forall|j: int| 0 <= j < i ==> (#[trigger] fs[j]).name@ != name,
        i < fs.len() ==> fs[i].name@ == name,
    ensures
        spec_find_function(fs, name) == if i < fs.len() {
            Some(i)
        } else {
            None::<int>
        },
    decreases fs.len(),
{
    if fs.len() > 0 && i > 0 {
        assert(fs[0].name@ != name);
        let d = fs.drop_first();
        assert forall|j: int| 0 <= j < i - 1 implies (#[trigger] d[j]).name@ != name by {
            assert(d[j] == fs[j + 1]);
        }
        assert(i - 1 < d.len() ==> d[i - 1] == fs[i]);
        lemma_find_function_at(d, name, i - 1);
    }
}

impl Modules {
    /// The instruction covering `addr`: the walk starts at the run the
    /// predecessor query returns and advances by instruction lengths
    /// until it reaches the address.
    pub fn get_instruction_at(&self, addr: usize) -> (r: Option<(usize, &InstrEntry)>)
        requires
            self.wf(),
        ensures
            ({
                let bi = spec_batch_index(self.opcodes@, addr as int);
                match r {
                    Some(p) => {
                        &&& bi is Some
                        &&& spec_walk_to(
                            self.opcodes@[bi->0].1@,
                            0,
                            self.opcodes@[bi->0].0 as int,
                            addr as int,
                        ) matches Some(w)
                        &&& p.0 == w.0
                        &&& *p.1 == self.opcodes@[bi->0].1@[w.1]
                    },
                    None => bi is None || spec_walk_to(
                        self.opcodes@[bi->0].1@,
                        0,
                        self.opcodes@[bi->0].0 as int,
                        addr as int,
                    ) is None,
                }
            }),
    {
        let batch = match self.get_instructions_at(addr) {
            Some(b) => b,
            None => {
                return None;
            },
        };
        let key = batch.0;
        let entries = &batch.1;
        let ghost bidx = spec_batch_index(self.opcodes@, addr as int)->0;
        proof {
            lemma_pred_index_props(opcode_keys(self.opcodes@), addr as int);
            lemma_total_len_nonneg(entries@);
        }
        let mut eip: usize = key;
        let mut idx: usize = 0;
        loop
            invariant
                0 <= idx <= entries@.len(),
                spec_batch_index(self.opcodes@, addr as int) == Some(bidx),
                0 <= bidx < self.opcodes@.len(),
                self.opcodes@[bidx].0 == key,
                self.opcodes@[bidx].1 == *entries,
                key + spec_total_len(entries@) <= usize::MAX,
                eip == key + spec_total_len(entries@.take(idx as int)),
                spec_walk_to(entries@, 0, key as int, addr as int) == spec_walk_to(
                    entries@,
                    idx as int,
                    eip as int,
                    addr as int,
                ),
            decreases entries@.len() - idx,
        {
            if idx == entries.len() {
                return None;
            }
            if eip >= addr {
                return Some((eip, &entries[idx]));
            }
            proof {
                lemma_total_len_take_succ(entries@, idx as int);
                lemma_total_len_take_le(entries@, idx + 1);
            }
            eip = eip + entries[idx].len;
            idx = idx + 1;
        }
    }

    /// The first instruction strictly past `addr` in the run the
    /// predecessor query returns.
    pub fn get_next_instruction_after(&self, addr: usize) -> (r: Option<(usize, &InstrEntry)>)
        requires
            self.wf(),
        ensures
            ({
                let bi = spec_batch_index(self.opcodes@, addr as int);
                match r {
                    Some(p) => {
                        &&& bi is Some
                        &&& spec_walk_after(
                            self.opcodes@[bi->0].1@,
                            0,
                            self.opcodes@[bi->0].0 as int,
                            addr as int,
                        ) matches Some(w)
                        &&& p.0 == w.0
                        &&& *p.1 == self.opcodes@[bi->0].1@[w.1]
                    },
                    None => bi is None || spec_walk_after(
                        self.opcodes@[bi->0].1@,
                        0,
                        self.opcodes@[bi->0].0 as int,
                        addr as int,
                    ) is None,
                }
            }),
    {
        let batch = match self.get_instructions_at(addr) {
            Some(b) => b,
            None => {
                return None;
            },
        };
        let key = batch.0;
        let entries = &batch.1;
        let ghost bidx = spec_batch_index(self.opcodes@, addr as int)->0;
        proof {
            lemma_pred_index_props(opcode_keys(self.opcodes@), addr as int);
            lemma_total_len_nonneg(entries@);
        }
        let mut eip: usize = key;
        let mut idx: usize = 0;
        loop
            invariant
                0 <= idx <= entries@.len(),
                spec_batch_index(self.opcodes@, addr as int) == Some(bidx),
                0 <= bidx < self.opcodes@.len(),
                self.opcodes@[bidx].0 == key,
                self.opcodes@[bidx].1 == *entries,
                key + spec_total_len(entries@) <= usize::MAX,
                eip == key + spec_total_len(entries@.take(idx as int)),
                spec_walk_after(entries@, 0, key as int, addr as int) == spec_walk_after(
                    entries@,
                    idx as int,
                    eip as int,
                    addr as int,
                ),
            decreases entries@.len() - idx,
        {
            if idx == entries.len() {
                return None;
            }
            if eip > addr {
                return Some((eip, &entries[idx]));
            }
            proof {
                lemma_total_len_take_succ(entries@, idx as int);
                lemma_total_len_take_le(entries@, idx + 1);
            }
            eip = eip + entries[idx].len;
            idx = idx + 1;
        }
    }

    /// The address of the first function carrying this name, over all
    /// modules (the module argument is kept for the caller's sake and
    /// not consulted).
    pub fn get_function_addr(&self, _module: &str, symbol: &String) -> (r: Option<usize>)
        ensures
            match spec_find_function(self.functions@, symbol@) {
                Some(i) => r == Some(self.functions@[i].addr),
                None => r is None,
            },
    {
        let mut i: usize = 0;
        while i < self.functions.len()
            invariant
                0 <= i <= self.functions@.len(),
                forall|j: int| 0 <= j < i ==> (#[trigger] self.functions@[j]).name@ != symbol@,
            decreases self.functions@.len() - i,
        {
            if self.functions[i].name == *symbol {
                proof {
                    lemma_find_function_at(self.functions@, symbol@, i as int);
                }
                return Some(self.functions[i].addr);
            }
            i += 1;
        }
        proof {
            lemma_find_function_at(self.functions@, symbol@, i as int);
        }
        None
    }
}

/// Inserts a function at its sorted position.
fn insert_function_sorted(fs: &mut Vec<FunctionInfo>, f: FunctionInfo)
    requires
        addrs_sorted(function_addrs(old(fs)@)),
    ensures
        addrs_sorted(function_addrs(final(fs)@)),
        final(fs)@.to_multiset() == old(fs)@.to_multiset().insert(f),
        final(fs)@.len() == old(fs)@.len() + 1,
        final(fs)@ == old(fs)@.insert(
            spec_pred_count(function_addrs(old(fs)@), f.addr as int),
            f,
        ),
{
    let ghost addrs = function_addrs(fs@);
    let mut j: usize = 0;
    while j < fs.len() && fs[j].addr <= f.addr
        invariant
            0 <= j <= fs@.len(),
            addrs == function_addrs(fs@),
            forall|i: int| 0 <= i < j ==> addrs[i] <= f.addr,
        decreases fs@.len() - j,
    {
        proof {
            assert(addrs[j as int] == fs@[j as int].addr);
        }
        j += 1;
    }
    proof {
        assert(j < fs@.len() ==> addrs[j as int] == fs@[j as int].addr);
        lemma_pred_count_from_split(addrs, f.addr as int, j as int);
    }
    fs.insert(j, f);
    proof {
        vstd::seq_lib::to_multiset_insert(old(fs)@, j as int, f);
        let new_addrs = function_addrs(fs@);
        assert forall|a: int, b: int|
            0 <= a < b < new_addrs.len() implies new_addrs[a] <= new_addrs[b] by {
            assert(new_addrs[a] == fs@[a].addr);
            assert(new_addrs[b] == fs@[b].addr);
            if a < j {
                assert(fs@[a] == old(fs)@[a]);
                assert(addrs[a] == old(fs)@[a].addr);
            }
            if b < j {
                assert(fs@[b] == old(fs)@[b]);
                assert(addrs[b] == old(fs)@[b].addr);
            }
            if a > j {
                assert(fs@[a] == old(fs)@[a - 1]);
                assert(addrs[a - 1] == old(fs)@[a - 1].addr);
            }
            if b > j {
                assert(fs@[b] == old(fs)@[b - 1]);
                assert(addrs[b - 1] == old(fs)@[b - 1].addr);
            }
        }
    }
}

/// Inserts a module at its sorted position.
fn insert_module_sorted(ms: &mut Vec<ModuleInfo>, m: ModuleInfo)
    requires
        addrs_sorted(module_addrs(old(ms)@)),
    ensures
        addrs_sorted(module_addrs(final(ms)@)),
        final(ms)@.to_multiset() == old(ms)@.to_multiset().insert(m),
        final(ms)@.len() == old(ms)@.len() + 1,
{
    let ghost addrs = module_addrs(ms@);
    let mut j: usize = 0;
    while j < ms.len() && ms[j].addr <= m.addr
        invariant
            0 <= j <= ms@.len(),
            addrs == module_addrs(ms@),
            forall|i: int| 0 <= i < j ==> addrs[i] <= m.addr,
        decreases ms@.len() - j,
    {
        proof {
            assert(addrs[j as int] == ms@[j as int].addr);
        }
        j += 1;
    }
    proof {
        assert(j < ms@.len() ==> addrs[j as int] == ms@[j as int].addr);
    }
    ms.insert(j, m);
    proof {
        vstd::seq_lib::to_multiset_insert(old(ms)@, j as int, m);
        let new_addrs = module_addrs(ms@);
        assert forall|a: int, b: int|
            0 <= a < b < new_addrs.len() implies new_addrs[a] <= new_addrs[b] by {
            assert(new_addrs[a] == ms@[a].addr);
            assert(new_addrs[b] == ms@[b].addr);
            if a < j {
                assert(ms@[a] == old(ms)@[a]);
                assert(addrs[a] == old(ms)@[a].addr);
            }
            if b < j {
                assert(ms@[b] == old(ms)@[b]);
                assert(addrs[b] == old(ms)@[b].addr);
            }
            if a > j {
                assert(ms@[a] == old(ms)@[a - 1]);
                assert(addrs[a - 1] == old(ms)@[a - 1].addr);
            }
            if b > j {
                assert(ms@[b] == old(ms)@[b - 1]);
                assert(addrs[b - 1] == old(ms)@[b - 1].addr);
            }
        }
    }
}

/// Inserts a decoded run at its sorted position.
fn insert_batch_sorted(os: &mut Vec<(usize, Vec<InstrEntry>)>, b: (usize, Vec<InstrEntry>))
    requires
        addrs_sorted(opcode_keys(old(os)@)),
        forall|i: int|
            0 <= i < old(os)@.len() ==> (#[trigger] old(os)@[i]).0 + spec_total_len(
                old(os)@[i].1@,
            ) <= usize::MAX,
        b.0 + spec_total_len(b.1@) <= usize::MAX,
    ensures
        addrs_sorted(opcode_keys(final(os)@)),
        forall|i: int|
            0 <= i < final(os)@.len() ==> (#[trigger] final(os)@[i]).0 + spec_total_len(
                final(os)@[i].1@,
            ) <= usize::MAX,
        final(os)@.to_multiset() == old(os)@.to_multiset().insert(b),
        final(os)@.len() == old(os)@.len() + 1,
{
    let ghost addrs = opcode_keys(os@);
    let key = b.0;
    let mut j: usize = 0;
    while j < os.len() && os[j].0 <= key
        invariant
            0 <= j <= os@.len(),
            addrs == opcode_keys(os@),
            key == b.0,
            forall|i: int| 0 <= i < j ==> addrs[i] <= key,
        decreases os@.len() - j,
    {
        proof {
            assert(addrs[j as int] == os@[j as int].0);
        }
        j += 1;
    }
    proof {
        assert(j < os@.len() ==> addrs[j as int] == os@[j as int].0);
    }
    os.insert(j, b);
    proof {
        vstd::seq_lib::to_multiset_insert(old(os)@, j as int, b);
        let new_addrs = opcode_keys(os@);
        assert forall|a: int, c: int|
            0 <= a < c < new_addrs.len() implies new_addrs[a] <= new_addrs[c] by {
            assert(new_addrs[a] == os@[a].0);
            assert(new_addrs[c] == os@[c].0);
            if a < j {
                assert(os@[a] == old(os)@[a]);
                assert(addrs[a] == old(os)@[a].0);
            }
            if c < j {
                assert(os@[c] == old(os)@[c]);
                assert(addrs[c] == old(os)@[c].0);
            }
            if a > j {
                assert(os@[a] == old(os)@[a - 1]);
                assert(addrs[a - 1] == old(os)@[a - 1].0);
            }
            if c > j {
                assert(os@[c] == old(os)@[c - 1]);
                assert(addrs[c - 1] == old(os)@[c - 1].0);
            }
        }
        assert forall|i: int|
            0 <= i < os@.len() implies (#[trigger] os@[i]).0 + spec_total_len(os@[i].1@)
                <= usize::MAX by {
            if i < j {
                assert(os@[i] == old(os)@[i]);
            } else if i > j {
                assert(os@[i] == old(os)@[i - 1]);
            }
        }
    }
}

/// The offset of the image signature inside a mapped module.
pub open spec fn spec_mod_lfa(s: Seq<u8>) -> int {
    spec_le32(s, 60)
}

/// The machine id of a mapped module's COFF header.
pub open spec fn spec_mod_machine(s: Seq<u8>) -> int {
    spec_le16(s, spec_mod_lfa(s) + 4)
}

/// Where a mapped module's data-directory table starts: past the COFF
/// header and the optional header, whose width the machine id fixes.
pub open spec fn spec_mod_dirs_off(s: Seq<u8>) -> int {
    spec_mod_lfa(s) + 24 + (if spec_mod_machine(s) == 0x014C {
        96int
    } else {
        112int
    })
}

/// The export directory's offset within the mapped module.
pub open spec fn spec_export_va(s: Seq<u8>) -> int {
    spec_le32(s, spec_mod_dirs_off(s))
}

/// The export directory's declared size.
pub open spec fn spec_export_size(s: Seq<u8>) -> int {
    spec_le32(s, spec_mod_dirs_off(s) + 4)
}

/// The headers and the export directory all fit in the mapped bytes.
pub open spec fn spec_export_header_ok(s: Seq<u8>) -> bool {
    &&& s.len() >= 64
    &&& spec_mod_lfa(s) + 24 <= s.len()
    &&& spec_mod_dirs_off(s) + 8 <= s.len()
    &&& spec_export_va(s) + 40 <= s.len()
}

pub open spec fn spec_export_nf(s: Seq<u8>) -> int {
    spec_le32(s, spec_export_va(s) + 20)
}

pub open spec fn spec_export_nn(s: Seq<u8>) -> int {
    spec_le32(s, spec_export_va(s) + 24)
}

pub open spec fn spec_export_fns_off(s: Seq<u8>) -> int {
    spec_le32(s, spec_export_va(s) + 28)
}

pub open spec fn spec_export_names_off(s: Seq<u8>) -> int {
    spec_le32(s, spec_export_va(s) + 32)
}

pub open spec fn spec_export_ords_off(s: Seq<u8>) -> int {
    spec_le32(s, spec_export_va(s) + 36)
}

/// The offset of the name of export entry `i`.
pub open spec fn spec_entry_name_rva(s: Seq<u8>, i: int) -> int {
    spec_le32(s, spec_export_names_off(s) + 4 * i)
}

/// The position of export entry `i` in the function-address table.
pub open spec fn spec_entry_ord(s: Seq<u8>, i: int) -> int {
    spec_le16(s, spec_export_ords_off(s) + 2 * i)
}

/// The offset of the routine export entry `i` names.
pub open spec fn spec_entry_fn_rva(s: Seq<u8>, i: int) -> int {
    spec_le32(s, spec_export_fns_off(s) + 4 * spec_entry_ord(s, i))
}

/// Export entry `i` can be taken: its table cells and its name fit in
/// the image, its ordinal stays inside the function table, its name is
/// ASCII, and its absolute address fits the address space.
pub open spec fn spec_export_entry_ok(s: Seq<u8>, base: int, i: int) -> bool {
    &&& spec_export_names_off(s) + 4 * i + 4 <= s.len()
    &&& spec_export_ords_off(s) + 2 * i + 2 <= s.len()
    &&& spec_entry_ord(s, i) < spec_export_nf(s)
    &&& spec_export_fns_off(s) + 4 * spec_entry_ord(s, i) + 4 <= s.len()
    &&& spec_entry_name_rva(s, i) <= s.len()
    &&& forall|j: int|
        spec_entry_name_rva(s, i) <= j < spec_cstr_end(s, spec_entry_name_rva(s, i)) ==> s[j]
            < 0x80
    &&& base + spec_entry_fn_rva(s, i) <= usize::MAX
}

/// Export entry `i` is a forwarder: the routine offset it names lies
/// inside the export directory itself.
pub open spec fn spec_entry_forwarder(s: Seq<u8>, i: int) -> bool {
    spec_export_va(s) <= spec_entry_fn_rva(s, i) <= spec_export_va(s) + spec_export_size(s)
}

/// The name of export entry `i`.
pub open spec fn spec_entry_name(s: Seq<u8>, i: int) -> Seq<char> {
    ascii_chars(
        s.subrange(spec_entry_name_rva(s, i), spec_cstr_end(s, spec_entry_name_rva(s, i))),
    )
}

/// The name-and-address pairs the export walk takes from entry `i`
/// on: every readable, non-forwarder entry, in table order.
pub open spec fn spec_export_list(s: Seq<u8>, base: int, i: int) -> Seq<(Seq<char>, int)>
    decreases spec_export_nn(s) - i,
{
    if i < 0 || i >= spec_export_nn(s) {
        Seq::empty()
    } else {
        let rest = spec_export_list(s, base, i + 1);
        if spec_export_entry_ok(s, base, i) && !spec_entry_forwarder(s, i) {
            seq![(spec_entry_name(s, i), base + spec_entry_fn_rva(s, i))] + rest
        } else {
            rest
        }
    }
}

/// The views of a list of named addresses.
pub open spec fn pairs_view(ps: Seq<(String, usize)>) -> Seq<(Seq<char>, int)> {
    ps.map(|i: int, p: (String, usize)| (p.0@, p.1 as int))
}

/// What the export walk makes of one entry: its name and absolute
/// address when the entry can be taken and is no forwarder, else
/// nothing.
fn export_entry(image: &Vec<u8>, base_addr: usize, i: u32) -> (r: Option<(String, usize)>)
    requires
        spec_export_header_ok(image@),
    ensures
        match r {
            Some(p) => {
                &&& spec_export_entry_ok(image@, base_addr as int, i as int)
                &&& !spec_entry_forwarder(image@, i as int)
                &&& p.0@ == spec_entry_name(image@, i as int)
                &&& p.1 == base_addr + spec_entry_fn_rva(image@, i as int)
            },
            None => !(spec_export_entry_ok(image@, base_addr as int, i as int)
                && !spec_entry_forwarder(image@, i as int)),
        },
{
    let v = image;
    proof {
        assert(image@.len() == image.len());
    }
    let len64 = v.len() as u64;
    let lfa = read_u32_le(v, 60) as usize;
    let machine = read_u16_le(v, lfa + 4);
    let dirs_off = lfa + 24 + (if machine == 0x014C {
        96
    } else {
        112
    });
    let eva = read_u32_le(v, dirs_off) as usize;
    let esize = read_u32_le(v, dirs_off + 4);
    let nf = read_u32_le(v, eva + 20);
    let fns_off = read_u32_le(v, eva + 28);
    let names_off = read_u32_le(v, eva + 32);
    let ords_off = read_u32_le(v, eva + 36);
    if (names_off as u64) + 4 * (i as u64) + 4 > len64 {
        return None;
    }
    if (ords_off as u64) + 2 * (i as u64) + 2 > len64 {
        return None;
    }
    let name_rva = read_u32_le(v, names_off as usize + 4 * (i as usize));
    let fid = read_u16_le(v, ords_off as usize + 2 * (i as usize));
    if (fid as u32) >= nf {
        return None;
    }
    if (fns_off as u64) + 4 * (fid as u64) + 4 > len64 {
        return None;
    }
    let fn_rva = read_u32_le(v, fns_off as usize + 4 * (fid as usize));
    if (name_rva as u64) > len64 {
        return None;
    }
    let (end, all_ascii) = scan_cstr(v, name_rva as usize);
    if !all_ascii {
        return None;
    }
    if fn_rva as usize > usize::MAX - base_addr {
        return None;
    }
    if (eva as u64) <= (fn_rva as u64) && (fn_rva as u64) <= (eva as u64) + (esize as u64) {
        return None;
    }
    let name = string_from_ascii(copy_range(v, name_rva as usize, end));
    Some((name, base_addr + fn_rva as usize))
}

/// The name-and-address pairs of a mapped module's export table:
/// every readable, non-forwarder entry, in table order.
pub fn export_functions(image: &Vec<u8>, base_addr: usize) -> (r: Vec<(String, usize)>)
    requires
        spec_export_header_ok(image@),
    ensures
        pairs_view(r@) == spec_export_list(image@, base_addr as int, 0),
{
    let v = image;
    let ghost s = image@;
    proof {
        assert(image@.len() == image.len());
    }
    let lfa = read_u32_le(v, 60) as usize;
    let machine = read_u16_le(v, lfa + 4);
    let dirs_off = lfa + 24 + (if machine == 0x014C {
        96
    } else {
        112
    });
    let eva = read_u32_le(v, dirs_off) as usize;
    let nn = read_u32_le(v, eva + 24);
    let mut out: Vec<(String, usize)> = Vec::new();
    let mut i: u32 = 0;
    proof {
        assert(pairs_view(out@) + spec_export_list(s, base_addr as int, 0) =~= spec_export_list(
            s,
            base_addr as int,
            0,
        ));
    }
    while i < nn
        invariant
            spec_export_header_ok(s),
            s == image@,
            0 <= i <= nn,
            nn == spec_export_nn(s),
            spec_export_list(s, base_addr as int, 0) == pairs_view(out@) + spec_export_list(
                s,
                base_addr as int,
                i as int,
            ),
        decreases nn - i,
    {
        match export_entry(image, base_addr, i) {
            Some(p) => {
                let ghost old_out = out@;
                out.push(p);
                proof {
                    assert(pairs_view(out@) =~= pairs_view(old_out).push((p.0@, p.1 as int)));
                    assert(spec_export_list(s, base_addr as int, i as int) == seq![
                        (p.0@, p.1 as int),
                    ] + spec_export_list(s, base_addr as int, i + 1));
                    assert(pairs_view(out@) + spec_export_list(s, base_addr as int, i + 1)
                        =~= pairs_view(old_out) + spec_export_list(s, base_addr as int, i as int));
                }
            },
            None => {
                proof {
                    assert(spec_export_list(s, base_addr as int, i as int) == spec_export_list(
                        s,
                        base_addr as int,
                        i + 1,
                    ));
                }
            },
        }
        i += 1;
    }
    proof {
        assert(pairs_view(out@) + spec_export_list(s, base_addr as int, i as int) =~= pairs_view(
            out@,
        ));
    }
    out
}

/// A function prologue stands at offset `o`: a push of the frame
/// pointer followed by a move into it.
pub open spec fn spec_prologue_at(s: Seq<u8>, o: int) -> bool {
    o + 1 < s.len() && s[o] == 0x55 && s[o + 1] == 0x89
}

/// Inter-function padding ends just before offset `o`: two break
/// opcodes in a row.
pub open spec fn spec_padding_at(s: Seq<u8>, o: int) -> bool {
    o > 2 && s[o - 2] == 0xCC && s[o - 1] == 0xCC
}

/// The heuristic takes offset `o` for a function start.
pub open spec fn spec_heuristic_hit(s: Seq<u8>, o: int) -> bool {
    spec_prologue_at(s, o) || spec_padding_at(s, o)
}

/// The synthetic name of a heuristically found function at `a`.
pub open spec fn spec_synth_name(a: nat) -> Seq<char> {
    seq!['f', '_'] + spec_hex_chars(a)
}

/// The name-and-address pairs the heuristic scan takes from offset
/// `o` on.
pub open spec fn spec_heuristic_list(s: Seq<u8>, base: int, o: int) -> Seq<(Seq<char>, int)>
    decreases s.len() - o,
{
    if o < 0 || o >= s.len() {
        Seq::empty()
    } else {
        let rest = spec_heuristic_list(s, base, o + 1);
        if spec_heuristic_hit(s, o) {
            seq![(spec_synth_name((base + o) as nat), base + o)] + rest
        } else {
            rest
        }
    }
}

/// The functions a prologue-and-padding scan of a mapped module
/// finds, each under a synthetic name carrying its address.
pub fn heuristic_functions(image: &Vec<u8>, base_addr: usize) -> (r: Vec<(String, usize)>)
    requires
        base_addr + image@.len() <= usize::MAX,
    ensures
        pairs_view(r@) == spec_heuristic_list(image@, base_addr as int, 0),
{
    let v = image;
    let ghost s = image@;
    let mut out: Vec<(String, usize)> = Vec::new();
    let mut o: usize = 0;
    proof {
        assert(pairs_view(out@) + spec_heuristic_list(s, base_addr as int, 0)
            =~= spec_heuristic_list(s, base_addr as int, 0));
    }
    while o < v.len()
        invariant
            s == image@,
            v@ == s,
            base_addr + s.len() <= usize::MAX,
            0 <= o <= s.len(),
            spec_heuristic_list(s, base_addr as int, 0) == pairs_view(out@)
                + spec_heuristic_list(s, base_addr as int, o as int),
        decreases s.len() - o,
    {
        let hit = (o + 1 < v.len() && v[o] == 0x55 && v[o + 1] == 0x89) || (o > 2 && v[o - 2]
            == 0xCC && v[o - 1] == 0xCC);
        if hit {
            let addr = base_addr + o;
            let mut name = String::from_str("f_");
            let hex = crate::bytes::hex_string(addr);
            name.append(hex.as_str());
            proof {
                reveal_strlit("f_");
                assert(name@ =~= spec_synth_name(addr as nat));
            }
            let ghost old_out = out@;
            out.push((name, addr));
            proof {
                assert(pairs_view(out@) =~= pairs_view(old_out).push(
                    (spec_synth_name(addr as nat), addr as int),
                ));
                assert(spec_heuristic_list(s, base_addr as int, o as int) == seq![
                    (spec_synth_name(addr as nat), addr as int),
                ] + spec_heuristic_list(s, base_addr as int, o + 1));
                assert(pairs_view(out@) + spec_heuristic_list(s, base_addr as int, o + 1)
                    =~= pairs_view(old_out) + spec_heuristic_list(s, base_addr as int, o as int));
            }
        } else {
            proof {
                assert(spec_heuristic_list(s, base_addr as int, o as int) == spec_heuristic_list(
                    s,
                    base_addr as int,
                    o + 1,
                ));
            }
        }
        o += 1;
    }
    proof {
        assert(pairs_view(out@) + spec_heuristic_list(s, base_addr as int, o as int) =~= pairs_view(
            out@,
        ));
    }
    out
}

/// How many positions of a sorted address list lie at or below the
/// query.
pub open spec fn spec_pred_count(addrs: Seq<int>, addr: int) -> int
    decreases addrs.len(),
{
    match spec_pred_index(addrs, addr) {
        Some(i) => i + 1,
        None => 0,
    }
}

/// A split point of a sorted address list names the count of
/// positions at or below the query.
proof fn lemma_pred_count_from_split(addrs: Seq<int>, addr: int, k: int)
    requires
        addrs_sorted(addrs),
        0 <= k <= addrs.len(),
        forall|i: int| 0 <= i < k ==> addrs[i] <= addr,
        forall|i: int| k <= i < addrs.len() ==> addrs[i] > addr,
    ensures
        spec_pred_count(addrs, addr) == k,
{
    lemma_pred_index_from_split(addrs, addr, k);
}

/// The functions a list of named addresses stands for, in order.
pub open spec fn fn_infos(ps: Seq<(String, usize)>) -> Seq<FunctionInfo> {
    ps.map(|i: int, p: (String, usize)| FunctionInfo { name: p.0, addr: p.1 })
}

/// The views of a function table.
pub open spec fn fn_views(fs: Seq<FunctionInfo>) -> Seq<(Seq<char>, int)> {
    fs.map(|i: int, f: FunctionInfo| (f.name@, f.addr as int))
}

/// Sorts a list of named addresses into a function table.
fn sort_function_pairs(pairs: Vec<(String, usize)>) -> (r: Vec<FunctionInfo>)
    ensures
        addrs_sorted(function_addrs(r@)),
        r@.to_multiset() == fn_infos(pairs@).to_multiset(),
        r@.len() == pairs@.len(),
{
    broadcast use vstd::seq_lib::group_to_multiset_ensures;

    let ghost orig = pairs@;
    let mut rem = pairs;
    let mut out: Vec<FunctionInfo> = Vec::new();
    proof {
        assert(out@.to_multiset().add(fn_infos(rem@).to_multiset()) =~= fn_infos(
            orig,
        ).to_multiset()) by {
            assert(out@.to_multiset().len() == 0);
            assert(rem@ == orig);
        }
    }
    while rem.len() > 0
        invariant
            addrs_sorted(function_addrs(out@)),
            out@.to_multiset().add(fn_infos(rem@).to_multiset()) == fn_infos(orig).to_multiset(),
            out@.len() + rem@.len() == orig.len(),
        decreases rem@.len(),
    {
        let ghost rem_before = rem@;
        let p = rem.pop().unwrap();
        let f = FunctionInfo { name: p.0, addr: p.1 };
        proof {
            assert(fn_infos(rem_before) =~= fn_infos(rem@).push(f));
            vstd::seq_lib::to_multiset_build(fn_infos(rem@), f);
            assert(fn_infos(rem_before).to_multiset() == fn_infos(rem@).to_multiset().insert(f));
        }
        insert_function_sorted(&mut out, f);
        proof {
            assert(out@.to_multiset().add(fn_infos(rem@).to_multiset()) =~= fn_infos(
                orig,
            ).to_multiset());
        }
    }
    proof {
        assert(fn_infos(rem@).to_multiset() =~= Multiset::<FunctionInfo>::empty()) by {
            assert(fn_infos(rem@).len() == 0);
        }
        assert(out@.to_multiset() =~= fn_infos(orig).to_multiset());
    }
    out
}

/// The cache holds a run starting at `start` whose decoded
/// instructions cover exactly `size` bytes.
pub open spec fn has_batch(os: Seq<(usize, Vec<InstrEntry>)>, start: int, size: int) -> bool {
    exists|b: int|
        0 <= b < os.len() && (#[trigger] os[b]).0 == start && spec_total_len(os[b].1@) == size
}

/// A run present in the cache stays present when another run is
/// inserted.
proof fn lemma_has_batch_insert(
    os1: Seq<(usize, Vec<InstrEntry>)>,
    os2: Seq<(usize, Vec<InstrEntry>)>,
    nb: (usize, Vec<InstrEntry>),
    start: int,
    size: int,
)
    requires
        os2.to_multiset() == os1.to_multiset().insert(nb),
        has_batch(os1, start, size),
    ensures
        has_batch(os2, start, size),
{
    broadcast use vstd::seq_lib::group_to_multiset_ensures;
    broadcast use vstd::multiset::group_multiset_axioms;

    let i = choose|i: int|
        0 <= i < os1.len() && (#[trigger] os1[i]).0 == start && spec_total_len(os1[i].1@) == size;
    let v = os1[i];
    assert(os1.contains(v));
    assert(os1.to_multiset().count(v) > 0);
    assert(os2.to_multiset().count(v) > 0);
    assert(os2.contains(v));
    let j = choose|j: int| 0 <= j < os2.len() && os2[j] == v;
    assert(os2[j].0 == start && spec_total_len(os2[j].1@) == size);
}

/// The run just inserted is present in the cache.
proof fn lemma_has_batch_new(
    os1: Seq<(usize, Vec<InstrEntry>)>,
    os2: Seq<(usize, Vec<InstrEntry>)>,
    nb: (usize, Vec<InstrEntry>),
)
    requires
        os2.to_multiset() == os1.to_multiset().insert(nb),
    ensures
        has_batch(os2, nb.0 as int, spec_total_len(nb.1@)),
{
    broadcast use vstd::seq_lib::group_to_multiset_ensures;
    broadcast use vstd::multiset::group_multiset_axioms;

    assert(os2.to_multiset().count(nb) > 0);
    assert(os2.contains(nb));
    let j = choose|j: int| 0 <= j < os2.len() && os2[j] == nb;
    assert(os2[j].0 == nb.0 && spec_total_len(os2[j].1@) == spec_total_len(nb.1@));
}

/// The number of bytes cached for the function at position `k` of a
/// sorted batch: up to the next function's start, one hundred bytes
/// for the last one, ten when the gap is implausibly large.
pub open spec fn spec_extent_size(fs: Seq<FunctionInfo>, k: int) -> int {
    let raw = if k + 1 < fs.len() {
        fs[k + 1].addr - fs[k].addr
    } else {
        100
    };
    if raw > 1000000 {
        10
    } else {
        raw
    }
}

impl Modules {
    /// Registers a sorted batch of functions: each is added to the
    /// function table, and for each whose extent lies inside the
    /// mapped image, the extent's bytes are decoded and cached under
    /// the function's address. Runs already cached stay cached.
    pub fn add_sorted_functions(
        &mut self,
        newfunctions: &Vec<FunctionInfo>,
        base_addr: usize,
        image: &Vec<u8>,
    )
        requires
            old(self).wf(),
            addrs_sorted(function_addrs(newfunctions@)),
            base_addr + image@.len() <= usize::MAX,
        ensures
            final(self).wf(),
            final(self).functions@.to_multiset() == old(self).functions@.to_multiset().add(
                newfunctions@.to_multiset(),
            ),
            final(self).modules@ == old(self).modules@,
            forall|st: int, sz: int|
                has_batch(old(self).opcodes@, st, sz) ==> has_batch(final(self).opcodes@, st, sz),
            forall|k: int|
                0 <= k < newfunctions@.len() ==> {
                    let start = (#[trigger] newfunctions@[k]).addr as int;
                    let size = spec_extent_size(newfunctions@, k);
                    (start >= base_addr && start - base_addr + size <= image@.len())
                        ==> has_batch(final(self).opcodes@, start, size)
                },
    {
        broadcast use vstd::seq_lib::group_to_multiset_ensures;

        proof {
            assert(image@.len() == image.len());
        }
        let n = newfunctions.len();
        let mut k: usize = 0;
        proof {
            assert(newfunctions@.take(0).to_multiset() =~= Multiset::<FunctionInfo>::empty()) by {
                assert(newfunctions@.take(0).len() == 0);
            }
            assert(self.functions@.to_multiset().add(newfunctions@.take(0).to_multiset())
                =~= self.functions@.to_multiset());
        }
        while k < n
            invariant
                self.wf(),
                0 <= k <= n,
                n == newfunctions@.len(),
                addrs_sorted(function_addrs(newfunctions@)),
                base_addr + image@.len() <= usize::MAX,
                image@.len() == image.len(),
                self.functions@.to_multiset() == old(self).functions@.to_multiset().add(
                    newfunctions@.take(k as int).to_multiset(),
                ),
                self.modules@ == old(self).modules@,
                forall|st: int, sz: int|
                    has_batch(old(self).opcodes@, st, sz) ==> has_batch(self.opcodes@, st, sz),
                forall|kk: int|
                    0 <= kk < k ==> {
                        let start = (#[trigger] newfunctions@[kk]).addr as int;
                        let size = spec_extent_size(newfunctions@, kk);
                        (start >= base_addr && start - base_addr + size <= image@.len())
                            ==> has_batch(self.opcodes@, start, size)
                    },
            decreases n - k,
        {
            let start = newfunctions[k].addr;
            let raw_size: usize = if k + 1 < n {
                let next = newfunctions[k + 1].addr;
                proof {
                    assert(function_addrs(newfunctions@)[k as int] == newfunctions@[k as int].addr);
                    assert(function_addrs(newfunctions@)[k + 1] == newfunctions@[k + 1].addr);
                }
                next - start
            } else {
                100
            };
            let size: usize = if raw_size > 1000000 {
                10
            } else {
                raw_size
            };
            proof {
                assert(size == spec_extent_size(newfunctions@, k as int));
            }
            if start >= base_addr && start - base_addr <= image.len() && size <= image.len() - (
            start - base_addr) {
                let off = start - base_addr;
                let bytes = copy_range(image, off, off + size);
                let entries = crate::instr::decode_code32(&bytes);
                let ghost ops_before = self.opcodes@;
                let ghost nb: (usize, Vec<InstrEntry>) = (start, entries);
                insert_batch_sorted(&mut self.opcodes, (start, entries));
                proof {
                    assert(self.opcodes@.to_multiset() == ops_before.to_multiset().insert(nb));
                    assert forall|st: int, sz: int|
                        has_batch(ops_before, st, sz) implies has_batch(
                        self.opcodes@,
                        st,
                        sz,
                    ) by {
                        lemma_has_batch_insert(ops_before, self.opcodes@, nb, st, sz);
                    }
                    lemma_has_batch_new(ops_before, self.opcodes@, nb);
                    assert(spec_total_len(nb.1@) == size);
                }
            }
            let ghost fns_before = self.functions@;
            let name_copy = newfunctions[k].name.clone();
            let f = FunctionInfo { name: name_copy, addr: start };
            proof {
                assert(f == newfunctions@[k as int]);
            }
            insert_function_sorted(&mut self.functions, f);
            proof {
                assert(newfunctions@.take(k + 1) =~= newfunctions@.take(k as int).push(f));
                vstd::seq_lib::to_multiset_build(newfunctions@.take(k as int), f);
                assert(newfunctions@.take(k + 1).to_multiset() == newfunctions@.take(
                    k as int,
                ).to_multiset().insert(f));
                assert(self.functions@.to_multiset() =~= old(self).functions@.to_multiset().add(
                    newfunctions@.take(k + 1).to_multiset(),
                ));
            }
            k += 1;
        }
        proof {
            assert(newfunctions@.take(n as int) =~= newfunctions@);
        }
    }

    /// Registers a batch of named addresses: the batch is sorted by
    /// address and added as `add_sorted_functions` does.
    pub fn add_functions(
        &mut self,
        newfunctions: Vec<(String, usize)>,
        base_addr: usize,
        image: &Vec<u8>,
    )
        requires
            old(self).wf(),
            base_addr + image@.len() <= usize::MAX,
        ensures
            final(self).wf(),
            final(self).functions@.to_multiset() == old(self).functions@.to_multiset().add(
                fn_infos(newfunctions@).to_multiset(),
            ),
            final(self).modules@ == old(self).modules@,
            forall|st: int, sz: int|
                has_batch(old(self).opcodes@, st, sz) ==> has_batch(final(self).opcodes@, st, sz),
    {
        let ghost pairs = newfunctions@;
        let sorted = sort_function_pairs(newfunctions);
        self.add_sorted_functions(&sorted, base_addr, image);
    }
}

/// Why registering a mapped module fails: its headers, directory
/// entry, or a non-zero export directory do not fit in the bytes.
pub open spec fn spec_load_error(s: Seq<u8>) -> Option<crate::pe::ParseError> {
    if s.len() < 64 {
        Some(crate::pe::ParseError::OutOfBounds)
    } else if spec_mod_lfa(s) + 24 > s.len() {
        Some(crate::pe::ParseError::OutOfBounds)
    } else if spec_mod_dirs_off(s) + 8 > s.len() {
        Some(crate::pe::ParseError::OutOfBounds)
    } else if spec_export_va(s) != 0 && spec_export_va(s) + 40 > s.len() {
        Some(crate::pe::ParseError::OutOfBounds)
    } else {
        None
    }
}

/// The module carries a usable export table: a non-zero export
/// directory naming a non-zero function-address table.
pub open spec fn spec_export_present(s: Seq<u8>) -> bool {
    spec_export_va(s) != 0 && spec_export_fns_off(s) != 0
}

/// The functions registering a module adds: its export table's
/// entries when it has one, a heuristic scan when it has none and is
/// small, nothing otherwise.
pub open spec fn spec_module_functions(s: Seq<u8>, base: int, size: int) -> Seq<(Seq<char>, int)> {
    if spec_export_present(s) {
        spec_export_list(s, base, 0)
    } else if size < 10000000 {
        spec_heuristic_list(s, base, 0)
    } else {
        Seq::empty()
    }
}

impl Modules {
    /// Registers a mapped module: walks its export table (or scans a
    /// small export-less module heuristically), adds the functions
    /// found, and records the module itself.
    pub fn load_module(&mut self, base_addr: usize, size: usize, name: &str, image: &Vec<u8>)
        -> (r: Result<(), crate::pe::ParseError>)
        requires
            old(self).wf(),
            base_addr + image@.len() <= usize::MAX,
        ensures
            final(self).wf(),
            match r {
                Ok(_) => {
                    &&& spec_load_error(image@) is None
                    &&& exists|m: ModuleInfo|
                        m.name@ == name@ && m.addr == base_addr && m.size == size
                            && final(self).modules@.to_multiset()
                            == #[trigger] old(self).modules@.to_multiset().insert(m)
                    &&& exists|added: Seq<FunctionInfo>|
                        #[trigger] fn_views(added) == spec_module_functions(
                            image@,
                            base_addr as int,
                            size as int,
                        ) && final(self).functions@.to_multiset()
                            == old(self).functions@.to_multiset().add(added.to_multiset())
                    &&& forall|st: int, sz: int|
                        has_batch(old(self).opcodes@, st, sz) ==> has_batch(
                            final(self).opcodes@,
                            st,
                            sz,
                        )
                },
                Err(e) => spec_load_error(image@) == Some(e) && *final(self) == *old(self),
            },
    {
        let v = image;
        proof {
            assert(image@.len() == image.len());
        }
        if v.len() < 64 {
            return Err(crate::pe::ParseError::OutOfBounds);
        }
        let lfa = read_u32_le(v, 60) as usize;
        if lfa > v.len() || v.len() - lfa < 24 {
            return Err(crate::pe::ParseError::OutOfBounds);
        }
        let machine = read_u16_le(v, lfa + 4);
        let opt_size: usize = if machine == 0x014C {
            96
        } else {
            112
        };
        let head = lfa + 24;
        if v.len() - head < opt_size + 8 {
            return Err(crate::pe::ParseError::OutOfBounds);
        }
        let dirs_off = head + opt_size;
        let eva = read_u32_le(v, dirs_off) as usize;
        if eva != 0 && (eva > v.len() || v.len() - eva < 40) {
            return Err(crate::pe::ParseError::OutOfBounds);
        }
        let newfuncs: Vec<(String, usize)> = if eva != 0 && read_u32_le(v, eva + 28) != 0 {
            export_functions(image, base_addr)
        } else if size < 10000000 {
            heuristic_functions(image, base_addr)
        } else {
            Vec::new()
        };
        proof {
            assert(pairs_view(newfuncs@) == spec_module_functions(
                image@,
                base_addr as int,
                size as int,
            ));
        }
        let ghost added = fn_infos(newfuncs@);
        proof {
            assert(fn_views(added) =~= pairs_view(newfuncs@));
        }
        self.add_functions(newfuncs, base_addr, image);
        let m = ModuleInfo { name: name.to_owned(), addr: base_addr, size };
        let ghost gm = m;
        insert_module_sorted(&mut self.modules, m);
        proof {
            assert(gm.name@ == name@ && gm.addr == base_addr && gm.size == size);
        }
        Ok(())
    }
}

/// Law: no pair the export walk yields names a routine whose offset
/// lies inside the export directory itself; forwarders are never
/// registered.
pub proof fn lemma_export_list_no_forwarders(s: Seq<u8>, base: int, i: int, k: int)
    requires
        0 <= k < spec_export_list(s, base, i).len(),
    ensures
        !(spec_export_va(s) <= spec_export_list(s, base, i)[k].1 - base <= spec_export_va(s)
            + spec_export_size(s)),
    decreases spec_export_nn(s) - i,
{
    if i < 0 || i >= spec_export_nn(s) {
    } else {
        let rest = spec_export_list(s, base, i + 1);
        if spec_export_entry_ok(s, base, i) && !spec_entry_forwarder(s, i) {
            if k == 0 {
            } else {
                lemma_export_list_no_forwarders(s, base, i + 1, k - 1);
            }
        } else {
            lemma_export_list_no_forwarders(s, base, i + 1, k);
        }
    }
}

/// Law: a function the registry returns lies at or below the queried
/// address, and no function of the registry lies between it and the
/// query.
pub proof fn lemma_function_at_is_greatest(fs: Seq<FunctionInfo>, addr: int, f: FunctionInfo)
    requires
        addrs_sorted(function_addrs(fs)),
        spec_function_at(fs, addr) == Some(f),
    ensures
        f.addr <= addr,
        forall|j: int|
            0 <= j < fs.len() && (#[trigger] fs[j].addr) <= addr ==> fs[j].addr <= f.addr,
{
    lemma_pred_index_props(function_addrs(fs), addr);
    let i = spec_pred_index(function_addrs(fs), addr)->0;
    assert(function_addrs(fs)[i] == fs[i].addr);
    assert forall|j: int|
        0 <= j < fs.len() && (#[trigger] fs[j].addr) <= addr implies fs[j].addr <= f.addr by {
        assert(function_addrs(fs)[j] == fs[j].addr);
        if j > i {
            assert(function_addrs(fs)[j] > addr);
        } else {
            assert(function_addrs(fs)[j] <= function_addrs(fs)[i]);
        }
    }
}

/// Law: the address lookup is monotone. When two queries both return
/// a function, the query at the lower address returns a function at
/// or below the other's.
pub proof fn lemma_function_at_monotone(fs: Seq<FunctionInfo>, a: int, b: int)
    requires
        addrs_sorted(function_addrs(fs)),
        a <= b,
        spec_function_at(fs, a) is Some,
        spec_function_at(fs, b) is Some,
    ensures
        spec_function_at(fs, a)->0.addr <= spec_function_at(fs, b)->0.addr,
        spec_function_at(fs, a)->0.addr <= a,
        spec_function_at(fs, b)->0.addr <= b,
{
    lemma_pred_index_props(function_addrs(fs), a);
    lemma_pred_index_props(function_addrs(fs), b);
    let ia = spec_pred_index(function_addrs(fs), a)->0;
    let ib = spec_pred_index(function_addrs(fs), b)->0;
    assert(function_addrs(fs)[ia] == fs[ia].addr);
    assert(function_addrs(fs)[ib] == fs[ib].addr);
    if ia > ib {
        assert(function_addrs(fs)[ia] > b);
    }
    assert(function_addrs(fs)[ia] <= function_addrs(fs)[ib]);
}

} // verus!
