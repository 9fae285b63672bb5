use vstd::prelude::*;

verus! {

/// How many system call numbers are known.
pub const MAX_SYSCALL_NUM: usize = 28;
/// How many categories there are.
pub const CATEGORY_COUNT: usize = 5;

/// What a system call is about.
#[derive(Debug, Clone, Copy, PartialEq, Eq, Structural)]
pub enum SyscallCategory {
    FileIO,
    Memory,
    Process,
    Network,
    System,
}

pub open spec fn category_index(c: SyscallCategory) -> int {
    match c {
        SyscallCategory::FileIO => 0,
        SyscallCategory::Memory => 1,
        SyscallCategory::Process => 2,
        SyscallCategory::Network => 3,
        SyscallCategory::System => 4,
    }
}

/// How a category is shown.
pub open spec fn category_label(c: SyscallCategory) -> Seq<char> {
    match c {
        SyscallCategory::FileIO => "File I/O"@,
        SyscallCategory::Memory => "Memory"@,
        SyscallCategory::Process => "Process"@,
        SyscallCategory::Network => "Network"@,
        SyscallCategory::System => "System"@,
    }
}

impl SyscallCategory {
    pub fn index(&self) -> (res: usize)
        ensures
            res == category_index(*self),
    {
        match self {
            SyscallCategory::FileIO => 0,
            SyscallCategory::Memory => 1,
            SyscallCategory::Process => 2,
            SyscallCategory::Network => 3,
            SyscallCategory::System => 4,
        }
    }

    pub fn label(&self) -> (res: &'static str)
        ensures
            res@ == category_label(*self),
    {
        match self {
            SyscallCategory::FileIO => "File I/O",
            SyscallCategory::Memory => "Memory",
            SyscallCategory::Process => "Process",
            SyscallCategory::Network => "Network",
            SyscallCategory::System => "System",
        }
    }
}

/// A known system call: its name and category.
#[derive(Debug, Clone, Copy)]
pub struct SyscallInfo {
    pub name: &'static str,
    pub category: SyscallCategory,
}

/// The category of system call `num`, if the number is known: 14 and 16
/// are unused.
pub open spec fn syscall_category(num: int) -> Option<SyscallCategory> {
    if num == 0 || num == 1 || num == 2 || num == 3 || num == 8 || num == 11 || num == 12 || num == 17 {
        Some(SyscallCategory::FileIO)
    } else if num == 5 || num == 13 || num == 15 {
        Some(SyscallCategory::Memory)
    } else if num == 4 || num == 10 {
        Some(SyscallCategory::Process)
    } else if 19 <= num <= 27 {
        Some(SyscallCategory::Network)
    } else if num == 6 || num == 7 || num == 9 || num == 18 {
        Some(SyscallCategory::System)
    } else {
        None
    }
}

fn info(name: &'static str, category: SyscallCategory) -> (res: Option<SyscallInfo>)
    ensures
        res matches Some(i) && i.category == category && i.name@ == name@,
{
    Some(SyscallInfo { name, category })
}

/// The name of system call `num`, for the known numbers.
pub open spec fn syscall_name(num: int) -> Seq<char> {
    if num == 0 { "read"@ }
    else if num == 1 { "write"@ }
    else if num == 2 { "open"@ }
    else if num == 3 { "close"@ }
    else if num == 4 { "exit"@ }
    else if num == 5 { "sbrk"@ }
    else if num == 6 { "uname"@ }
    else if num == 7 { "break"@ }
    else if num == 8 { "stat"@ }
    else if num == 9 { "uptime"@ }
    else if num == 10 { "exec"@ }
    else if num == 11 { "getcwd"@ }
    else if num == 12 { "chdir"@ }
    else if num == 13 { "free"@ }
    else if num == 15 { "sbrksz"@ }
    else if num == 17 { "getenames"@ }
    else if num == 18 { "iomsg"@ }
    else if num == 19 { "socket"@ }
    else if num == 20 { "bind"@ }
    else if num == 21 { "sendto"@ }
    else if num == 22 { "recvfrom"@ }
    else if num == 23 { "send"@ }
    else if num == 24 { "recv"@ }
    else if num == 25 { "connect"@ }
    else if num == 26 { "listen"@ }
    else { "accept"@ }
}

/// The name and category of system call `num`.
pub fn lookup_syscall(num: u32) -> (res: Option<SyscallInfo>)
    ensures
        match syscall_category(num as int) {
            Some(c) => res matches Some(i) && i.category == c && i.name@ == syscall_name(num as int),
            None => res is None,
        },
{
    match num {
        0 => info("read", SyscallCategory::FileIO),
        1 => info("write", SyscallCategory::FileIO),
        2 => info("open", SyscallCategory::FileIO),
        3 => info("close", SyscallCategory::FileIO),
        4 => info("exit", SyscallCategory::Process),
        5 => info("sbrk", SyscallCategory::Memory),
        6 => info("uname", SyscallCategory::System),
        7 => info("break", SyscallCategory::System),
        8 => info("stat", SyscallCategory::FileIO),
        9 => info("uptime", SyscallCategory::System),
        10 => info("exec", SyscallCategory::Process),
        11 => info("getcwd", SyscallCategory::FileIO),
        12 => info("chdir", SyscallCategory::FileIO),
        13 => info("free", SyscallCategory::Memory),
        15 => info("sbrksz", SyscallCategory::Memory),
        17 => info("getenames", SyscallCategory::FileIO),
        18 => info("iomsg", SyscallCategory::System),
        19 => info("socket", SyscallCategory::Network),
        20 => info("bind", SyscallCategory::Network),
        21 => info("sendto", SyscallCategory::Network),
        22 => info("recvfrom", SyscallCategory::Network),
        23 => info("send", SyscallCategory::Network),
        24 => info("recv", SyscallCategory::Network),
        25 => info("connect", SyscallCategory::Network),
        26 => info("listen", SyscallCategory::Network),
        27 => info("accept", SyscallCategory::Network),
        _ => None,
    }
}

/// How often each known system call and each category was called; the
/// counts wrap around.
#[derive(Debug)]
pub struct SyscallCounters {
    pub counts: Vec<u64>,
    pub category_counts: Vec<u64>,
}

/// The sum of the counts.
pub open spec fn count_sum(s: Seq<u64>) -> int
    decreases s.len(),
{
    if s.len() == 0 {
        0
    } else {
        count_sum(s.drop_last()) + s.last()
    }
}

/// Counting a call of `num` takes the counters from `a` to `b`: a known
/// call adds one (wrapping) to its own count and to its category's; an
/// unknown one changes nothing.
pub open spec fn counted(a: SyscallCounters, b: SyscallCounters, num: u32) -> bool {
    match syscall_category(num as int) {
        None => b == a,
        Some(c) => b.counts@ == a.counts@.update(
            num as int,
            ((a.counts@[num as int] + 1) % 0x1_0000_0000_0000_0000) as u64,
        ) && b.category_counts@ == a.category_counts@.update(
            category_index(c),
            ((a.category_counts@[category_index(c)] + 1) % 0x1_0000_0000_0000_0000) as u64,
        ),
    }
}

/// Call number `i` belongs to the category at index `k`.
pub open spec fn in_category(i: int, k: int) -> bool {
    match syscall_category(i) {
        Some(c) => category_index(c) == k,
        None => false,
    }
}

/// The calls of the category at index `k` among the first `n` call numbers.
pub open spec fn calls_in(counts: Seq<u64>, k: int, n: int) -> int
    decreases n,
{
    if n <= 0 {
        0
    } else {
        calls_in(counts, k, n - 1) + if in_category(n - 1, k) {
            counts[n - 1] as int
        } else {
            0
        }
    }
}

/// Each category's count is the sum of the counts of its calls.
pub open spec fn counters_agree(c: SyscallCounters) -> bool {
    &&& c.wf()
    &&& forall|k: int| 0 <= k < 5 ==> #[trigger] c.category_counts@[k] == calls_in(c.counts@, k, 28)
}

proof fn lemma_calls_in_update(counts: Seq<u64>, k: int, n: int, s: int, v: u64)
    requires
        0 <= s < counts.len(),
        n <= counts.len(),
    ensures
        calls_in(counts.update(s, v), k, n) == calls_in(counts, k, n) + if s < n && in_category(s, k) {
            v - counts[s]
        } else {
            0
        },
    decreases n,
{
    if n > 0 {
        lemma_calls_in_update(counts, k, n - 1, s, v);
    }
}

proof fn lemma_calls_in_bounds(counts: Seq<u64>, k: int, n: int, s: int)
    requires
        n <= counts.len(),
    ensures
        calls_in(counts, k, n) >= 0,
        0 <= s < n && in_category(s, k) ==> calls_in(counts, k, n) >= counts[s],
        (forall|i: int| 0 <= i < counts.len() ==> counts[i] == 0) ==> calls_in(counts, k, n) == 0,
    decreases n,
{
    if n > 0 {
        lemma_calls_in_bounds(counts, k, n - 1, s);
    }
}

/// Counting a call keeps each category's count the sum of its calls'
/// counts, as long as the category's count does not wrap.
pub proof fn lemma_counted_keeps_totals(a: SyscallCounters, b: SyscallCounters, num: u32)
    requires
        counters_agree(a),
        counted(a, b, num),
        syscall_category(num as int) matches Some(c) ==> a.category_counts@[category_index(c)] < u64::MAX,
    ensures
        counters_agree(b),
{
    if let Some(c) = syscall_category(num as int) {
        let kc = category_index(c);
        let s = num as int;
        assert(in_category(s, kc));
        lemma_calls_in_bounds(a.counts@, kc, 28, s);
        assert(a.counts@[s] < u64::MAX);
        assert forall|k: int| 0 <= k < 5 implies #[trigger] b.category_counts@[k] == calls_in(b.counts@, k, 28) by {
            lemma_calls_in_update(a.counts@, k, 28, s, (a.counts@[s] + 1) as u64);
            assert(a.category_counts@[k] == calls_in(a.counts@, k, 28));
        }
    }
}

impl SyscallCounters {
    pub open spec fn wf(&self) -> bool {
        self.counts@.len() == 28 && self.category_counts@.len() == 5
    }

    pub fn new() -> (res: Self)
        ensures
            res.wf(),
            forall|i: int| 0 <= i < 28 ==> res.counts@[i] == 0,
            forall|i: int| 0 <= i < 5 ==> res.category_counts@[i] == 0,
            counters_agree(res),
    {
        let mut counts: Vec<u64> = Vec::new();
        while counts.len() < MAX_SYSCALL_NUM
            invariant
                counts.len() <= 28,
                forall|i: int| 0 <= i < counts@.len() ==> counts@[i] == 0,
            decreases 28 - counts.len(),
        {
            counts.push(0);
        }
        let mut category_counts: Vec<u64> = Vec::new();
        while category_counts.len() < CATEGORY_COUNT
            invariant
                category_counts.len() <= 5,
                forall|i: int| 0 <= i < category_counts@.len() ==> category_counts@[i] == 0,
            decreases 5 - category_counts.len(),
        {
            category_counts.push(0);
        }
        proof {
            assert forall|k: int| 0 <= k < 5 implies #[trigger] category_counts@[k] == calls_in(counts@, k, 28) by {
                lemma_calls_in_bounds(counts@, k, 28, 0);
            }
        }
        SyscallCounters { counts, category_counts }
    }

    /// Counts a call of a known system call and of its category; unknown
    /// numbers are not counted.
    pub fn increment(&mut self, syscall_num: u32)
        requires
            old(self).wf(),
        ensures
            final(self).wf(),
            counted(*old(self), *final(self), syscall_num),
    {
        match lookup_syscall(syscall_num) {
            Some(info) => {
                let n = syscall_num as usize;
                let c = self.counts[n];
                self.counts.set(n, c.wrapping_add(1));
                let k = info.category.index();
                let cc = self.category_counts[k];
                self.category_counts.set(k, cc.wrapping_add(1));
            },
            None => {},
        }
    }

    pub fn get(&self, syscall_num: usize) -> (res: u64)
        requires
            self.wf(),
            syscall_num < 28,
        ensures
            res == self.counts@[syscall_num as int],
    {
        self.counts[syscall_num]
    }

    pub fn get_category(&self, cat: SyscallCategory) -> (res: u64)
        requires
            self.wf(),
        ensures
            res == self.category_counts@[category_index(cat)],
    {
        self.category_counts[cat.index()]
    }

    /// All calls counted, over the categories.
    pub fn total(&self) -> (res: u64)
        requires
            self.wf(),
            count_sum(self.category_counts@) <= u64::MAX,
        ensures
            res == count_sum(self.category_counts@),
    {
        let mut sum: u64 = 0;
        let mut i: usize = 0;
        proof {
            lemma_count_sum_prefix_bound(self.category_counts@, 5);
            assert(self.category_counts@.take(5) =~= self.category_counts@);
        }
        while i < CATEGORY_COUNT
            invariant
                self.wf(),
                i <= 5,
                count_sum(self.category_counts@) <= u64::MAX,
                sum == count_sum(self.category_counts@.take(i as int)),
                forall|j: int| 0 <= j <= 5 ==> count_sum(#[trigger] self.category_counts@.take(j)) <= count_sum(
                    self.category_counts@,
                ),
            decreases 5 - i,
        {
            proof {
                assert(self.category_counts@.take(i + 1).drop_last() =~= self.category_counts@.take(i as int));
                assert(self.category_counts@.take(5) =~= self.category_counts@);
            }
            sum = sum + self.category_counts[i];
            i = i + 1;
        }
        proof {
            assert(self.category_counts@.take(5) =~= self.category_counts@);
        }
        sum
    }
}

proof fn lemma_count_sum_prefix_bound(s: Seq<u64>, n: int)
    requires
        0 <= n <= s.len(),
    ensures
        forall|j: int| 0 <= j <= n ==> count_sum(#[trigger] s.take(j)) <= count_sum(s.take(n)),
    decreases n,
{
    if n > 0 {
        lemma_count_sum_prefix_bound(s, n - 1);
        assert(s.take(n).drop_last() =~= s.take(n - 1));
    }
}

/// The calls per category since the last snapshot, and the snapshot taken
/// now: each rate is the growth of its count, or 0 where the count went
/// down.
pub fn update_rates(counters: &SyscallCounters, snapshot: &mut Vec<u64>, rates: &mut Vec<u64>)
    requires
        counters.wf(),
        old(snapshot)@.len() == 5,
        old(rates)@.len() == 5,
    ensures
        final(snapshot)@ == counters.category_counts@,
        final(rates)@.len() == 5,
        forall|i: int| 0 <= i < 5 ==> #[trigger] final(rates)@[i] == if counters.category_counts@[i] >= old(
            snapshot,
        )@[i] {
            counters.category_counts@[i] - old(snapshot)@[i]
        } else {
            0
        },
{
    let mut i: usize = 0;
    while i < CATEGORY_COUNT
        invariant
            counters.wf(),
            i <= 5,
            snapshot@.len() == 5,
            rates@.len() == 5,
            forall|j: int| 0 <= j < i ==> #[trigger] snapshot@[j] == counters.category_counts@[j],
            forall|j: int| i <= j < 5 ==> #[trigger] snapshot@[j] == old(snapshot)@[j],
            forall|j: int| 0 <= j < i ==> #[trigger] rates@[j] == if counters.category_counts@[j] >= old(
                snapshot,
            )@[j] {
                counters.category_counts@[j] - old(snapshot)@[j]
            } else {
                0
            },
        decreases 5 - i,
    {
        let current = counters.category_counts[i];
        let prev = snapshot[i];
        rates.set(i, current.saturating_sub(prev));
        snapshot.set(i, current);
        i = i + 1;
    }
    assert(snapshot@ =~= counters.category_counts@);
}

/// `a` is shown before `b`: more calls first, and between equal counts the
/// lower number first.
pub open spec fn ranks_before(a: (usize, u64), b: (usize, u64)) -> bool {
    a.1 > b.1 || (a.1 == b.1 && a.0 < b.0)
}

/// The system call numbers with their counts, most called first; equal
/// counts keep the order of their numbers.
pub fn ranked_syscalls(counters: &SyscallCounters) -> (res: Vec<(usize, u64)>)
    requires
        counters.wf(),
    ensures
        res@.len() == 28,
        forall|k: int| 0 <= k < 28 ==> (#[trigger] res@[k]).0 < 28 && res@[k].1 == counters.counts@[res@[k].0 as int],
        forall|k1: int, k2: int| 0 <= k1 < k2 < 28 ==> ranks_before(#[trigger] res@[k1], #[trigger] res@[k2]),
        forall|k1: int, k2: int| 0 <= k1 < k2 < 28 ==> #[trigger] res@[k1].0 != #[trigger] res@[k2].0,
{
    let mut entries: Vec<(usize, u64)> = Vec::new();
    let mut i: usize = 0;
    while i < MAX_SYSCALL_NUM
        invariant
            counters.wf(),
            i <= 28,
            entries@.len() == i,
            forall|k: int| 0 <= k < i ==> (#[trigger] entries@[k]).0 == k && entries@[k].1 == counters.counts@[k],
        decreases 28 - i,
    {
        entries.push((i, counters.get(i)));
        i = i + 1;
    }
    let mut i: usize = 1;
    while i < MAX_SYSCALL_NUM
        invariant
            counters.wf(),
            1 <= i <= 28,
            entries@.len() == 28,
            forall|k: int| 0 <= k < 28 ==> (#[trigger] entries@[k]).0 < 28 && entries@[k].1 == counters.counts@[entries@[k].0 as int],
            forall|k: int| i <= k < 28 ==> (#[trigger] entries@[k]).0 == k,
            forall|k: int| 0 <= k < i ==> (#[trigger] entries@[k]).0 < i,
            forall|k1: int, k2: int| 0 <= k1 < k2 < 28 ==> #[trigger] entries@[k1].0 != #[trigger] entries@[k2].0,
            forall|k1: int, k2: int| 0 <= k1 < k2 < i ==> ranks_before(#[trigger] entries@[k1], #[trigger] entries@[k2]),
        decreases 28 - i,
    {
        let ghost mv = entries@[i as int];
        let mut j: usize = i;
        while j > 0 && entries[j].1 > entries[j - 1].1
            invariant
                counters.wf(),
                1 <= i < 28,
                j <= i,
                entries@.len() == 28,
                mv.0 == i,
                entries@[j as int] == mv,
                forall|k: int| 0 <= k < 28 ==> (#[trigger] entries@[k]).0 < 28 && entries@[k].1 == counters.counts@[entries@[k].0 as int],
                forall|k: int| i < k < 28 ==> (#[trigger] entries@[k]).0 == k,
                forall|k: int| 0 <= k <= i && k != j ==> (#[trigger] entries@[k]).0 < i,
                forall|k1: int, k2: int| 0 <= k1 < k2 < 28 ==> #[trigger] entries@[k1].0 != #[trigger] entries@[k2].0,
                forall|k1: int, k2: int|
                    0 <= k1 < k2 <= i && k1 != j && k2 != j ==> ranks_before(#[trigger] entries@[k1], #[trigger] entries@[k2]),
                forall|k: int| j < k <= i ==> ranks_before(entries@[j as int], #[trigger] entries@[k]),
            decreases j,
        {
            let a = entries[j];
            let b = entries[j - 1];
            entries.set(j, b);
            entries.set(j - 1, a);
            j = j - 1;
        }
        proof {
            if j > 0 {
                assert(entries@[j - 1].0 < i);
                assert(ranks_before(entries@[j - 1], entries@[j as int]));
            }
            assert forall|k1: int, k2: int| 0 <= k1 < k2 < i + 1 implies ranks_before(
                #[trigger] entries@[k1],
                #[trigger] entries@[k2],
            ) by {
                if k2 == j as int && k1 < j - 1 {
                    assert(ranks_before(entries@[k1], entries@[j - 1]));
                }
            }
        }
        i = i + 1;
    }
    entries
}

/// A count as shown: in billions, millions or thousands with one decimal
/// from 1e9, 1e6 and 1e4 on, else as it is.
#[derive(Debug, Clone, Copy, PartialEq, Eq, Structural)]
pub enum CountLabel {
    Giga(u64, u64),
    Mega(u64, u64),
    Kilo(u64, u64),
    Plain(u64),
}

pub fn format_count(n: u64) -> (res: CountLabel)
    ensures
        n >= 1_000_000_000 ==> res == CountLabel::Giga(n / 1_000_000_000, (n / 100_000_000) % 10),
        1_000_000 <= n < 1_000_000_000 ==> res == CountLabel::Mega(n / 1_000_000, (n / 100_000) % 10),
        10_000 <= n < 1_000_000 ==> res == CountLabel::Kilo(n / 1_000, (n / 100) % 10),
        n < 10_000 ==> res == CountLabel::Plain(n),
{
    if n >= 1_000_000_000 {
        CountLabel::Giga(n / 1_000_000_000, (n / 100_000_000) % 10)
    } else if n >= 1_000_000 {
        CountLabel::Mega(n / 1_000_000, (n / 100_000) % 10)
    } else if n >= 10_000 {
        CountLabel::Kilo(n / 1_000, (n / 100) % 10)
    } else {
        CountLabel::Plain(n)
    }
}

/// Counts a completed system call.
pub fn hook(counters: &mut SyscallCounters, syscall_num: u32, _result: i64)
    requires
        old(counters).wf(),
    ensures
        final(counters).wf(),
        counted(*old(counters), *final(counters), syscall_num),
{
    counters.increment(syscall_num);
}

} // verus!
