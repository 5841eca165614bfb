//! The state of the host: processor, memory, disks, Docker and containers.

use vstd::prelude::*;

use crate::command::add_word;
use crate::json::{documents, member_text, parse_each, rows, rows_of, Json, JsonView};
use crate::number::{
    decimal, number_up_to, pad_right, padded_right, parse_u64, parse_up_to, to_decimal,
};
use crate::project::three;
use crate::service_health::{
    render as render_services, rendered as rendered_services, ServiceHealth,
};
use crate::text::{
    begins, contains, cut, holds_part, join, joined, lemma_holds_inner, lemma_holds_pair,
    lemma_joined_holds, lemma_parts_stay, lines, lines_of, lowercase, replace, replaced, same,
    same_ignoring_case, split_once, words, words_of, Text,
};

verus! {

/// The name of the file, in the state directory, that holds the last snapshot.
pub fn snapshot_file() -> (r: &'static str)
    ensures
        r@ == "host.json"@,
{
    "host.json"
}

// ---------------------------------------------------------------------------------------------
// Levels and thresholds
// ---------------------------------------------------------------------------------------------

/// How serious a measurement is.
#[derive(Clone, Copy, Debug, PartialEq, Eq, Structural)]
pub enum Level {
    Normal,
    Warning,
    Critical,
    Unknown,
}

/// The word for a level.
pub open spec fn level_name(level: Level) -> Text {
    match level {
        Level::Normal => "Normal"@,
        Level::Warning => "Warning"@,
        Level::Critical => "Critical"@,
        Level::Unknown => "Unknown"@,
    }
}

impl Level {
    /// The word for the level.
    pub fn name(self) -> (r: &'static str)
        ensures
            r@ == level_name(self),
    {
        match self {
            Level::Normal => "Normal",
            Level::Warning => "Warning",
            Level::Critical => "Critical",
            Level::Unknown => "Unknown",
        }
    }
}

/// Where the levels of memory and disks begin, in percent.
#[derive(Clone, Copy, Debug, PartialEq, Eq, Structural)]
pub struct Thresholds {
    pub disk_warn_percent: u8,
    pub disk_crit_percent: u8,
    pub mem_pressure_percent: u8,
}

/// A percentage from a setting; a setting that is no number from 0 to 100 does not count.
pub open spec fn percentage(setting: Option<Text>, default: nat) -> nat {
    match setting {
        Some(text) => match number_up_to(text, 100) {
            Some(n) => n,
            None => default,
        },
        None => default,
    }
}

fn read_percentage(setting: Option<&str>, default: u8) -> (r: u8)
    ensures
        r == percentage(setting.deep_view(), default as nat),
        default <= 100 ==> r <= 100,
{
    match setting {
        Some(text) => match parse_up_to(text, 100) {
            Some(n) => n as u8,
            None => default,
        },
        None => default,
    }
}

impl Thresholds {
    /// The thresholds, from the settings `YARD_DISK_WARN_PERCENT`, `YARD_DISK_CRIT_PERCENT` and
    /// `YARD_MEM_PRESSURE_PERCENT`. The critical level of a disk is never below its warning level.
    pub fn from_settings(warn: Option<&str>, crit: Option<&str>, memory: Option<&str>) -> (r: Self)
        ensures
            r.disk_warn_percent == percentage(warn.deep_view(), 80),
            r.disk_crit_percent == if percentage(crit.deep_view(), 90) < percentage(
                warn.deep_view(),
                80,
            ) {
                percentage(warn.deep_view(), 80)
            } else {
                percentage(crit.deep_view(), 90)
            },
            r.mem_pressure_percent == percentage(memory.deep_view(), 85),
            r.disk_warn_percent <= r.disk_crit_percent <= 100,
            r.mem_pressure_percent <= 100,
    {
        let disk_warn: u8 = read_percentage(warn, 80);
        let disk_crit: u8 = read_percentage(crit, 90);
        Thresholds {
            disk_warn_percent: disk_warn,
            disk_crit_percent: if disk_crit < disk_warn {
                disk_warn
            } else {
                disk_crit
            },
            mem_pressure_percent: read_percentage(memory, 85),
        }
    }
}

/// Whether a part of a total is strictly above a percentage of it.
pub open spec fn above(used: nat, total: nat, percent: nat) -> bool {
    100 * used > percent * total
}

/// The level of a part of a total. At a threshold the lower level still applies.
pub open spec fn level_of(used: nat, total: nat, warn: nat, crit: Option<nat>) -> Level {
    if crit is Some && above(used, total, crit->0) {
        Level::Critical
    } else if above(used, total, warn) {
        Level::Warning
    } else {
        Level::Normal
    }
}

fn is_above(used: u64, total: u64, percent: u8) -> (r: bool)
    ensures
        r == above(used as nat, total as nat, percent as nat),
{
    proof {
        assert(percent * total <= 0xff * 0xffff_ffff_ffff_ffff) by (nonlinear_arith)
            requires
                percent <= 0xff,
                total <= 0xffff_ffff_ffff_ffff,
        ;
    }
    100 * (used as u128) > (percent as u128) * (total as u128)
}

/// The level of a part of a total, in exact arithmetic.
pub fn percent_state(used: u64, total: u64, warn: u8, crit: Option<u8>) -> (r: Level)
    ensures
        r == level_of(
            used as nat,
            total as nat,
            warn as nat,
            match crit {
                Some(crit) => Some(crit as nat),
                None => None,
            },
        ),
{
    if let Some(crit) = crit {
        if is_above(used, total, crit) {
            return Level::Critical;
        }
    }
    if is_above(used, total, warn) {
        Level::Warning
    } else {
        Level::Normal
    }
}

/// How far a level is from normal.
pub open spec fn severity(level: Level) -> int {
    match level {
        Level::Normal => 0,
        Level::Unknown => 1,
        Level::Warning => 2,
        Level::Critical => 3,
    }
}

/// Using more of the same total never lowers the level.
pub proof fn law_level_grows_with_use(
    less: nat,
    more: nat,
    total: nat,
    warn: nat,
    crit: Option<nat>,
)
    requires
        less <= more,
    ensures
        severity(level_of(less, total, warn, crit)) <= severity(
            level_of(more, total, warn, crit),
        ),
{
}

/// A use of exactly the warning percentage is normal, and of exactly the critical percentage is
/// no more than a warning.
pub proof fn law_thresholds_are_strict(used: nat, total: nat, warn: nat, crit: nat)
    requires
        warn <= crit,
    ensures
        100 * used == warn * total ==> level_of(used, total, warn, Some(crit)) == Level::Normal,
        100 * used == crit * total ==> level_of(used, total, warn, Some(crit))
            != Level::Critical,
{
    assert(warn * total <= crit * total) by (nonlinear_arith)
        requires
            warn <= crit,
    ;
}

// ---------------------------------------------------------------------------------------------
// Measurements
// ---------------------------------------------------------------------------------------------

/// A measurement that may be missing, with its level.
#[derive(Debug)]
pub struct Metric<T> {
    pub value: Option<T>,
    pub status: Level,
    pub message: Option<&'static str>,
}

impl<T> Metric<T> {
    pub fn known(value: T, status: Level) -> (r: Self)
        ensures
            r == (Metric { value: Some(value), status, message: None::<&'static str> }),
    {
        Metric { value: Some(value), status, message: None }
    }

    pub fn unknown(message: &'static str) -> (r: Self)
        ensures
            r == (Metric { value: None::<T>, status: Level::Unknown, message: Some(message) }),
    {
        Metric { value: None, status: Level::Unknown, message: Some(message) }
    }
}

/// Whether a measurement is missing, for the reason that a message gives.
pub open spec fn is_missing<T>(metric: Metric<T>, message: Text) -> bool {
    metric.value is None && metric.status == Level::Unknown && metric.message.deep_view() == Some(
        message,
    )
}

/// Memory in use and in all.
#[derive(Clone, Copy, Debug, PartialEq, Eq, Structural)]
pub struct Memory {
    pub used_bytes: u64,
    pub total_bytes: u64,
}

/// Space of a mounted filesystem in use and in all.
#[derive(Debug)]
pub struct Disk {
    pub mount: String,
    pub used_bytes: u64,
    pub total_bytes: u64,
}

/// The space that Docker uses, as Docker words it.
#[derive(Debug)]
pub struct DockerUsage {
    pub images: String,
    pub containers: String,
    pub volumes: String,
}

/// A container of a project.
#[derive(Debug)]
pub struct Container {
    pub project: String,
    pub service: String,
    pub state: String,
    pub status: Level,
}

#[verifier::ext_equal]
pub struct DockerView {
    pub images: Text,
    pub containers: Text,
    pub volumes: Text,
}

#[verifier::ext_equal]
pub struct ContainerView {
    pub project: Text,
    pub service: Text,
    pub state: Text,
    pub status: Level,
}

impl DeepView for DockerUsage {
    type V = DockerView;

    open spec fn deep_view(&self) -> DockerView {
        DockerView { images: self.images@, containers: self.containers@, volumes: self.volumes@ }
    }
}

impl DeepView for Container {
    type V = ContainerView;

    open spec fn deep_view(&self) -> ContainerView {
        ContainerView {
            project: self.project@,
            service: self.service@,
            state: self.state@,
            status: self.status,
        }
    }
}

// ---------------------------------------------------------------------------------------------
// Processor
// ---------------------------------------------------------------------------------------------

/// The numbers that words write, where every word writes one that fits.
pub open spec fn numbers_of(words: Seq<Text>) -> Option<Seq<nat>>
    decreases words.len(),
{
    if words.len() == 0 {
        Some(Seq::empty())
    } else {
        match (numbers_of(words.drop_last()), number_up_to(words.last(), u64::MAX as nat)) {
            (Some(before), Some(n)) => Some(before.push(n)),
            _ => None,
        }
    }
}

/// The sum of numbers.
pub open spec fn sum(numbers: Seq<nat>) -> nat
    decreases numbers.len(),
{
    if numbers.len() == 0 {
        0
    } else {
        sum(numbers.drop_last()) + numbers.last()
    }
}

/// The idle time and the whole time of the processor, from the text of `/proc/stat`: the first
/// line starts with `cpu` and goes on with at least four counters, of which the fourth and the
/// fifth are idle time.
pub open spec fn cpu_times(text: Text) -> Option<(nat, nat)> {
    let first = lines_of(text);
    if first.len() == 0 {
        None
    } else {
        let fields = words_of(first[0]);
        if fields.len() == 0 || fields[0] != "cpu"@ {
            None
        } else {
            match numbers_of(fields.skip(1)) {
                Some(counters) => if counters.len() < 4 {
                    None
                } else {
                    let idle = counters[3] + (if counters.len() > 4 {
                        counters[4]
                    } else {
                        0
                    });
                    if idle <= u64::MAX && sum(counters) <= u64::MAX {
                        Some((idle, sum(counters)))
                    } else {
                        None
                    }
                },
                None => None,
            }
        }
    }
}

proof fn lemma_numbers_fail(words: Seq<Text>, n: int)
    requires
        0 <= n <= words.len(),
        numbers_of(words.take(n)) is None,
    ensures
        numbers_of(words) is None,
    decreases words.len() - n,
{
    if n == words.len() {
        assert(words.take(n) =~= words);
    } else {
        assert(words.take(n + 1).drop_last() =~= words.take(n));
        lemma_numbers_fail(words, n + 1);
    }
}

proof fn lemma_sum_of_part(numbers: Seq<nat>, n: int)
    requires
        0 <= n <= numbers.len(),
    ensures
        sum(numbers.take(n)) <= sum(numbers),
    decreases numbers.len() - n,
{
    if n == numbers.len() {
        assert(numbers.take(n) =~= numbers);
    } else {
        assert(numbers.take(n + 1).drop_last() =~= numbers.take(n));
        lemma_sum_of_part(numbers, n + 1);
    }
}

fn numbers(words: &Vec<String>, from: usize) -> (r: Option<Vec<u64>>)
    requires
        from <= words@.len(),
    ensures
        match r {
            Some(list) => numbers_of(words.deep_view().skip(from as int)) == Some(
                list@.map_values(|n: u64| n as nat),
            ),
            None => numbers_of(words.deep_view().skip(from as int)) is None,
        },
{
    let ghost all = words.deep_view().skip(from as int);
    let mut out: Vec<u64> = Vec::new();
    let mut i: usize = from;
    assert(all.take(0) =~= Seq::<Text>::empty());
    assert(out@.map_values(|n: u64| n as nat) =~= Seq::<nat>::empty());
    while i < words.len()
        invariant
            all == words.deep_view().skip(from as int),
            from <= i <= words@.len(),
            numbers_of(all.take(i - from)) == Some(out@.map_values(|n: u64| n as nat)),
        decreases words@.len() - i,
    {
        let ghost before = out@;
        assert(all.take(i - from + 1).drop_last() =~= all.take(i - from));
        assert(all.take(i - from + 1).last() == words@[i as int]@);
        match parse_u64(words[i].as_str()) {
            Some(n) => {
                out.push(n);
                assert(out@.map_values(|n: u64| n as nat) =~= before.map_values(
                    |n: u64| n as nat,
                ).push(n as nat));
            },
            None => {
                proof {
                    lemma_numbers_fail(all, i - from + 1);
                }
                return None;
            },
        }
        i = i + 1;
    }
    assert(all.take(i - from) =~= all);
    Some(out)
}

/// The idle time and the whole time of the processor, from the text of `/proc/stat`.
pub fn parse_cpu(text: &str) -> (r: Option<(u64, u64)>)
    ensures
        match r {
            Some((idle, total)) => cpu_times(text@) == Some((idle as nat, total as nat)),
            None => cpu_times(text@) is None,
        },
{
    let all = lines(text);
    if all.len() == 0 {
        return None;
    }
    let fields = words(all[0].as_str());
    if fields.len() == 0 || !same(fields[0].as_str(), "cpu") {
        return None;
    }
    let counters = numbers(&fields, 1)?;
    let ghost counts = counters@.map_values(|n: u64| n as nat);
    if counters.len() < 4 {
        return None;
    }
    let waiting: u64 = if counters.len() > 4 {
        counters[4]
    } else {
        0
    };
    let idle: u64 = counters[3].checked_add(waiting)?;
    let mut total: u64 = 0;
    let mut i: usize = 0;
    assert(counts.take(0) =~= Seq::<nat>::empty());
    while i < counters.len()
        invariant
            counts == counters@.map_values(|n: u64| n as nat),
            i <= counters@.len(),
            total == sum(counts.take(i as int)),
            cpu_times(text@) == (if sum(counts) <= u64::MAX {
                Some((idle as nat, sum(counts)))
            } else {
                None
            }),
        decreases counters@.len() - i,
    {
        assert(counts.take(i + 1).drop_last() =~= counts.take(i as int));
        assert(counts.take(i + 1).last() == counters@[i as int]);
        proof {
            lemma_sum_of_part(counts, i + 1);
        }
        total = total.checked_add(counters[i])?;
        i = i + 1;
    }
    assert(counts.take(i as int) =~= counts);
    Some((idle, total))
}

/// The busy time and the whole time between two readings of idle and whole time.
pub open spec fn busy_between(first: (nat, nat), second: (nat, nat)) -> Option<(nat, nat)> {
    let total = second.1 - first.1;
    let idle = second.0 - first.0;
    if 0 <= idle <= total && 0 < total {
        Some(((total - idle) as nat, total as nat))
    } else {
        None
    }
}

/// The busy time and the whole time between two readings of idle and whole time. There are none
/// where a counter runs backwards or no time has passed.
pub fn cpu_busy(first: (u64, u64), second: (u64, u64)) -> (r: Option<(u64, u64)>)
    ensures
        match r {
            Some((busy, total)) => busy_between(
                (first.0 as nat, first.1 as nat),
                (second.0 as nat, second.1 as nat),
            ) == Some((busy as nat, total as nat)) && busy <= total && total > 0,
            None => busy_between(
                (first.0 as nat, first.1 as nat),
                (second.0 as nat, second.1 as nat),
            ) is None,
        },
{
    let total: u64 = second.1.checked_sub(first.1)?;
    let idle: u64 = second.0.checked_sub(first.0)?;
    if total == 0 || idle > total {
        return None;
    }
    Some((total - idle, total))
}

// ---------------------------------------------------------------------------------------------
// Memory
// ---------------------------------------------------------------------------------------------

/// The bytes that a line of `/proc/meminfo` gives: the second word is a number of kilobytes, the
/// third is `kB`.
pub open spec fn line_bytes(fields: Seq<Text>) -> Option<nat> {
    if fields.len() < 3 || fields[2] != "kB"@ {
        None
    } else {
        match number_up_to(fields[1], u64::MAX as nat) {
            Some(kb) => if kb * 1024 <= u64::MAX {
                Some(kb * 1024)
            } else {
                None
            },
            None => None,
        }
    }
}

/// The total and the available memory that lines name; where a line is blank, or one that names
/// either cannot be read, there is nothing.
pub open spec fn memory_lines(lines: Seq<Text>) -> Option<(Option<nat>, Option<nat>)>
    decreases lines.len(),
{
    if lines.len() == 0 {
        Some((None, None))
    } else {
        match memory_lines(lines.drop_last()) {
            Some((total, available)) => {
                let fields = words_of(lines.last());
                if fields.len() == 0 {
                    None
                } else if fields[0] == "MemTotal:"@ || fields[0] == "MemAvailable:"@ {
                    match line_bytes(fields) {
                        Some(bytes) => if fields[0] == "MemTotal:"@ {
                            Some((Some(bytes), available))
                        } else {
                            Some((total, Some(bytes)))
                        },
                        None => None,
                    }
                } else {
                    Some((total, available))
                }
            },
            None => None,
        }
    }
}

/// The memory in use and in all, in bytes, from the text of `/proc/meminfo`: what is not
/// available is in use.
pub open spec fn memory_of(text: Text) -> Option<(nat, nat)> {
    match memory_lines(lines_of(text)) {
        Some((Some(total), Some(available))) => if total == 0 || available > total {
            None
        } else {
            Some(((total - available) as nat, total))
        },
        _ => None,
    }
}

proof fn lemma_memory_fail(lines: Seq<Text>, n: int)
    requires
        0 <= n <= lines.len(),
        memory_lines(lines.take(n)) is None,
    ensures
        memory_lines(lines) is None,
    decreases lines.len() - n,
{
    if n == lines.len() {
        assert(lines.take(n) =~= lines);
    } else {
        assert(lines.take(n + 1).drop_last() =~= lines.take(n));
        lemma_memory_fail(lines, n + 1);
    }
}

fn read_line_bytes(fields: &Vec<String>) -> (r: Option<u64>)
    ensures
        match r {
            Some(bytes) => line_bytes(fields.deep_view()) == Some(bytes as nat),
            None => line_bytes(fields.deep_view()) is None,
        },
{
    if fields.len() < 3 || !same(fields[2].as_str(), "kB") {
        return None;
    }
    let kb: u64 = parse_u64(fields[1].as_str())?;
    kb.checked_mul(1024)
}

pub open spec fn optional_nat(n: Option<u64>) -> Option<nat> {
    match n {
        Some(n) => Some(n as nat),
        None => None,
    }
}

/// The memory in use and in all, in bytes, from the text of `/proc/meminfo`.
pub fn parse_memory(text: &str) -> (r: Option<(u64, u64)>)
    ensures
        match r {
            Some((used, total)) => memory_of(text@) == Some((used as nat, total as nat)),
            None => memory_of(text@) is None,
        },
{
    let all = lines(text);
    let ghost views = all.deep_view();
    let mut total: Option<u64> = None;
    let mut available: Option<u64> = None;
    let mut i: usize = 0;
    assert(views.take(0) =~= Seq::<Text>::empty());
    while i < all.len()
        invariant
            views == all.deep_view(),
            views == lines_of(text@),
            i <= all@.len(),
            memory_lines(views.take(i as int)) == Some(
                (optional_nat(total), optional_nat(available)),
            ),
        decreases all@.len() - i,
    {
        assert(views.take(i + 1).drop_last() =~= views.take(i as int));
        assert(views.take(i + 1).last() == all@[i as int]@);
        let fields = words(all[i].as_str());
        if fields.len() == 0 {
            proof {
                lemma_memory_fail(views, i + 1);
            }
            return None;
        }
        let is_total = same(fields[0].as_str(), "MemTotal:");
        if is_total || same(fields[0].as_str(), "MemAvailable:") {
            match read_line_bytes(&fields) {
                Some(bytes) => {
                    if is_total {
                        total = Some(bytes);
                    } else {
                        available = Some(bytes);
                    }
                },
                None => {
                    proof {
                        lemma_memory_fail(views, i + 1);
                    }
                    return None;
                },
            }
        }
        i = i + 1;
    }
    assert(views.take(i as int) =~= views);
    let total: u64 = total?;
    let available: u64 = available?;
    if total == 0 {
        return None;
    }
    let used: u64 = total.checked_sub(available)?;
    Some((used, total))
}

/// Whether a measurement is that of memory, by the text of `/proc/meminfo` where it could be read.
pub open spec fn is_memory(
    text: Option<Text>,
    thresholds: Thresholds,
    metric: Metric<Memory>,
) -> bool {
    match (match text {
        Some(text) => memory_of(text),
        None => None,
    }) {
        Some((used, total)) => {
            &&& metric.value matches Some(memory) && memory.used_bytes == used
                && memory.total_bytes == total
            &&& metric.status == level_of(used, total, thresholds.mem_pressure_percent as nat, None)
            &&& metric.message is None
        },
        None => is_missing(metric, "Memory unavailable"@),
    }
}

/// The measurement of memory, from the text of `/proc/meminfo` where it could be read.
pub fn memory_metric(text: Option<&str>, thresholds: Thresholds) -> (r: Metric<Memory>)
    ensures
        is_memory(text.deep_view(), thresholds, r),
{
    let reading = match text {
        Some(text) => parse_memory(text),
        None => None,
    };
    match reading {
        Some((used_bytes, total_bytes)) => Metric::known(
            Memory { used_bytes, total_bytes },
            percent_state(used_bytes, total_bytes, thresholds.mem_pressure_percent, None),
        ),
        None => Metric::unknown("Memory unavailable"),
    }
}

// ---------------------------------------------------------------------------------------------
// Disks
// ---------------------------------------------------------------------------------------------

/// The filesystems that live on disks.
pub open spec fn on_disk(kind: Text) -> bool {
    kind == "ext4"@ || kind == "xfs"@ || kind == "btrfs"@ || kind == "zfs"@ || kind == "vfat"@
        || kind == "f2fs"@
}

/// The device and the mount point that a line of `/proc/self/mountinfo` gives for a filesystem on
/// a disk. The kind of the filesystem is the first word behind ` - `; the device and the mount
/// point are the third and the fifth before it.
pub open spec fn mount_line(line: Text) -> Option<(Text, Text)> {
    match cut(line, " - "@) {
        Some((before, after)) => {
            let fields = words_of(before);
            if words_of(after).len() > 0 && on_disk(words_of(after)[0]) && fields.len() >= 5 {
                Some((fields[2], fields[4]))
            } else {
                None
            }
        },
        None => None,
    }
}

/// The devices of the filesystems on disks, as often as lines name them.
pub open spec fn devices_of(lines: Seq<Text>) -> Seq<Text>
    decreases lines.len(),
{
    if lines.len() == 0 {
        Seq::empty()
    } else {
        match mount_line(lines.last()) {
            Some((device, _)) => devices_of(lines.drop_last()).push(device),
            None => devices_of(lines.drop_last()),
        }
    }
}

/// A mount point with its escapes undone: white space and backslashes are written in octal.
pub open spec fn unescaped(mount: Text) -> Text {
    replaced(
        replaced(replaced(replaced(mount, "\\040"@, " "@), "\\011"@, "\t"@), "\\012"@, "\n"@),
        "\\134"@,
        "\\"@,
    )
}

/// The mount points of the filesystems on disks, in order, the first for each device.
pub open spec fn mounts_of(lines: Seq<Text>) -> Seq<Text>
    decreases lines.len(),
{
    if lines.len() == 0 {
        Seq::empty()
    } else {
        let before = mounts_of(lines.drop_last());
        match mount_line(lines.last()) {
            Some((device, mount)) => if devices_of(lines.drop_last()).contains(device) {
                before
            } else {
                before.push(unescaped(mount))
            },
            None => before,
        }
    }
}

fn unescape(mount: &str) -> (r: String)
    ensures
        r@ == unescaped(mount@),
{
    proof {
        reveal_strlit("\\040");
        reveal_strlit("\\011");
        reveal_strlit("\\012");
        reveal_strlit("\\134");
    }
    let spaces = replace(mount, "\\040", " ");
    let tabs = replace(spaces.as_str(), "\\011", "\t");
    let feeds = replace(tabs.as_str(), "\\012", "\n");
    replace(feeds.as_str(), "\\134", "\\")
}

fn read_mount_line(line: &str) -> (r: Option<(String, String)>)
    ensures
        match r {
            Some((device, mount)) => mount_line(line@) == Some((device@, mount@)),
            None => mount_line(line@) is None,
        },
{
    let (before, after) = split_once(line, " - ")?;
    let behind = words(after.as_str());
    if behind.len() == 0 {
        return None;
    }
    let kind = behind[0].as_str();
    if !(same(kind, "ext4") || same(kind, "xfs") || same(kind, "btrfs") || same(kind, "zfs")
        || same(kind, "vfat") || same(kind, "f2fs")) {
        return None;
    }
    let fields = words(before.as_str());
    if fields.len() < 5 {
        return None;
    }
    Some((fields[2].clone(), fields[4].clone()))
}

/// The mount points of the filesystems on disks, from the text of `/proc/self/mountinfo`.
pub fn disk_mounts(text: &str) -> (r: Vec<String>)
    ensures
        r.deep_view() == mounts_of(lines_of(text@)),
{
    let all = lines(text);
    let ghost views = all.deep_view();
    let mut mounts: Vec<String> = Vec::new();
    let mut devices: Vec<String> = Vec::new();
    let mut i: usize = 0;
    assert(views.take(0) =~= Seq::<Text>::empty());
    assert(mounts.deep_view() =~= Seq::<Text>::empty());
    assert(devices.deep_view() =~= Seq::<Text>::empty());
    while i < all.len()
        invariant
            views == all.deep_view(),
            i <= all@.len(),
            mounts.deep_view() == mounts_of(views.take(i as int)),
            devices.deep_view() == devices_of(views.take(i as int)),
        decreases all@.len() - i,
    {
        assert(views.take(i + 1).drop_last() =~= views.take(i as int));
        assert(views.take(i + 1).last() == all@[i as int]@);
        let ghost mounts_before = mounts.deep_view();
        let ghost devices_before = devices.deep_view();
        if let Some((device, mount)) = read_mount_line(all[i].as_str()) {
            let ghost name = device@;
            if !contains(&devices, device.as_str()) {
                let point = unescape(mount.as_str());
                mounts.push(point);
                assert(mounts.deep_view() =~= mounts_before.push(point@));
            }
            devices.push(device);
            assert(devices.deep_view() =~= devices_before.push(name));
        }
        i = i + 1;
    }
    assert(views.take(i as int) =~= views);
    mounts
}

/// The bytes in use and in all of a filesystem, from its number of blocks, the blocks available
/// to an unprivileged process and the size of a block.
pub open spec fn usage_of(blocks: nat, available: nat, block_size: nat) -> Option<(nat, nat)> {
    if blocks * block_size <= u64::MAX && available * block_size <= u64::MAX && available
        * block_size <= blocks * block_size {
        Some(((blocks * block_size - available * block_size) as nat, blocks * block_size))
    } else {
        None
    }
}

/// The bytes in use and in all of a filesystem.
pub fn disk_usage(blocks: u64, available: u64, block_size: u64) -> (r: Option<(u64, u64)>)
    ensures
        match r {
            Some((used, total)) => usage_of(blocks as nat, available as nat, block_size as nat)
                == Some((used as nat, total as nat)),
            None => usage_of(blocks as nat, available as nat, block_size as nat) is None,
        },
{
    let total: u64 = blocks.checked_mul(block_size)?;
    let free: u64 = available.checked_mul(block_size)?;
    let used: u64 = total.checked_sub(free)?;
    Some((used, total))
}

/// Whether a measurement is that of one filesystem, by its bytes in use and in all where they are
/// known.
pub open spec fn is_disk(
    mount: Text,
    usage: Option<(u64, u64)>,
    thresholds: Thresholds,
    metric: Metric<Disk>,
) -> bool {
    match usage {
        Some((used, total)) => {
            &&& metric.value matches Some(disk) && disk.mount@ == mount && disk.used_bytes == used
                && disk.total_bytes == total
            &&& metric.status == (if total == 0 {
                Level::Unknown
            } else {
                level_of(
                    used as nat,
                    total as nat,
                    thresholds.disk_warn_percent as nat,
                    Some(thresholds.disk_crit_percent as nat),
                )
            })
            &&& metric.message is None
        },
        None => is_missing(metric, "Disk unavailable"@),
    }
}

/// The measurement of one filesystem, from its bytes in use and in all where they are known.
pub fn disk_metric(mount: String, usage: Option<(u64, u64)>, thresholds: Thresholds) -> (r: Metric<
    Disk,
>)
    ensures
        is_disk(mount@, usage, thresholds, r),
{
    match usage {
        Some((used_bytes, total_bytes)) => {
            let status = if total_bytes == 0 {
                Level::Unknown
            } else {
                percent_state(
                    used_bytes,
                    total_bytes,
                    thresholds.disk_warn_percent,
                    Some(thresholds.disk_crit_percent),
                )
            };
            Metric::known(Disk { mount, used_bytes, total_bytes }, status)
        },
        None => Metric::unknown("Disk unavailable"),
    }
}

// ---------------------------------------------------------------------------------------------
// Docker
// ---------------------------------------------------------------------------------------------

/// The Docker command that tells the space in use, one JSON row on each line.
pub fn docker_df() -> (r: Vec<String>)
    ensures
        r.deep_view() == seq!["system"@, "df"@, "--format"@, "{{json .}}"@],
{
    let mut args = three("system", "df", "--format");
    add_word(&mut args, "{{json .}}");
    assert(args.deep_view() =~= seq!["system"@, "df"@, "--format"@, "{{json .}}"@]);
    args
}

/// The space that Docker uses for images, containers and volumes, as far as rows name it; the
/// last row for each counts. A row without a type and a size makes the whole unreadable.
pub open spec fn docker_rows(rows: Seq<JsonView>) -> Option<
    (Option<Text>, Option<Text>, Option<Text>),
>
    decreases rows.len(),
{
    if rows.len() == 0 {
        Some((None, None, None))
    } else {
        match docker_rows(rows.drop_last()) {
            Some((images, containers, volumes)) => match (
                member_text(rows.last(), "Type"@),
                member_text(rows.last(), "Size"@),
            ) {
                (Some(kind), Some(size)) => if kind == "Images"@ {
                    Some((Some(size), containers, volumes))
                } else if kind == "Containers"@ {
                    Some((images, Some(size), volumes))
                } else if kind == "Local Volumes"@ {
                    Some((images, containers, Some(size)))
                } else {
                    Some((images, containers, volumes))
                },
                _ => None,
            },
            None => None,
        }
    }
}

/// The space that Docker uses, from rows of `docker system df`.
pub open spec fn usage_of_rows(rows: Seq<JsonView>) -> Option<DockerView> {
    match docker_rows(rows) {
        Some((Some(images), Some(containers), Some(volumes))) => Some(
            DockerView { images, containers, volumes },
        ),
        _ => None,
    }
}

/// The space that Docker uses, from the output of `docker system df` with one JSON row on each
/// line.
pub open spec fn docker_usage(text: Text) -> Option<DockerView> {
    match documents(lines_of(text)) {
        Ok(rows) => usage_of_rows(rows),
        Err(_) => None,
    }
}

proof fn lemma_docker_fail(rows: Seq<JsonView>, n: int)
    requires
        0 <= n <= rows.len(),
        docker_rows(rows.take(n)) is None,
    ensures
        docker_rows(rows) is None,
    decreases rows.len() - n,
{
    if n == rows.len() {
        assert(rows.take(n) =~= rows);
    } else {
        assert(rows.take(n + 1).drop_last() =~= rows.take(n));
        lemma_docker_fail(rows, n + 1);
    }
}

/// The space that Docker uses, from rows of `docker system df`.
pub fn docker_from_rows(rows: &Vec<Json>) -> (r: Option<DockerUsage>)
    ensures
        r.deep_view() == usage_of_rows(rows.deep_view()),
{
    let ghost views = rows.deep_view();
    let mut images: Option<String> = None;
    let mut containers: Option<String> = None;
    let mut volumes: Option<String> = None;
    let mut i: usize = 0;
    assert(views.take(0) =~= Seq::<JsonView>::empty());
    while i < rows.len()
        invariant
            views == rows.deep_view(),
            i <= rows@.len(),
            docker_rows(views.take(i as int)) == Some(
                (images.deep_view(), containers.deep_view(), volumes.deep_view()),
            ),
        decreases rows@.len() - i,
    {
        assert(views.take(i + 1).drop_last() =~= views.take(i as int));
        assert(views.take(i + 1).last() == rows@[i as int].deep_view());
        let kind = rows[i].member_text("Type");
        let size = rows[i].member_text("Size");
        if kind.is_none() || size.is_none() {
            proof {
                lemma_docker_fail(views, i + 1);
            }
            return None;
        }
        if let Some(kind) = kind {
            if same(kind.as_str(), "Images") {
                images = size;
            } else if same(kind.as_str(), "Containers") {
                containers = size;
            } else if same(kind.as_str(), "Local Volumes") {
                volumes = size;
            }
        }
        i = i + 1;
    }
    assert(views.take(i as int) =~= views);
    match (images, containers, volumes) {
        (Some(images), Some(containers), Some(volumes)) => Some(
            DockerUsage { images, containers, volumes },
        ),
        _ => None,
    }
}

/// The space that Docker uses, from the output of `docker system df`.
pub fn parse_docker_df(text: &str) -> (r: Option<DockerUsage>)
    ensures
        r.deep_view() == docker_usage(text@),
{
    match parse_each(&lines(text)) {
        Ok(rows) => docker_from_rows(&rows),
        Err(_) => None,
    }
}

/// Whether a container in a state is running.
pub open spec fn is_running(state: Text) -> bool {
    lowercase(state) == lowercase("running"@)
}

/// The container that a row of `docker compose ps` describes.
pub open spec fn container_of(project: Text, row: JsonView) -> Option<ContainerView> {
    match (member_text(row, "Service"@), member_text(row, "State"@)) {
        (Some(service), Some(state)) => Some(
            ContainerView {
                project,
                service,
                state,
                status: if is_running(state) {
                    Level::Normal
                } else {
                    Level::Critical
                },
            },
        ),
        _ => None,
    }
}

/// The containers that rows describe, where every row describes one.
pub open spec fn containers_of(project: Text, rows: Seq<JsonView>) -> Option<Seq<ContainerView>>
    decreases rows.len(),
{
    if rows.len() == 0 {
        Some(Seq::empty())
    } else {
        match (containers_of(project, rows.drop_last()), container_of(project, rows.last())) {
            (Some(before), Some(container)) => Some(before.push(container)),
            _ => None,
        }
    }
}

/// The containers of a project, from the output of `docker compose ps`.
pub open spec fn listed_containers(project: Text, text: Text) -> Option<Seq<ContainerView>> {
    match rows_of(text) {
        Ok(rows) => containers_of(project, rows),
        Err(_) => None,
    }
}

proof fn lemma_containers_fail(project: Text, rows: Seq<JsonView>, n: int)
    requires
        0 <= n <= rows.len(),
        containers_of(project, rows.take(n)) is None,
    ensures
        containers_of(project, rows) is None,
    decreases rows.len() - n,
{
    if n == rows.len() {
        assert(rows.take(n) =~= rows);
    } else {
        assert(rows.take(n + 1).drop_last() =~= rows.take(n));
        lemma_containers_fail(project, rows, n + 1);
    }
}

/// The containers that rows of `docker compose ps` describe.
pub fn containers_from_rows(project: &str, rows: &Vec<Json>) -> (r: Option<Vec<Container>>)
    ensures
        r.deep_view() == containers_of(project@, rows.deep_view()),
{
    let ghost views = rows.deep_view();
    let mut out: Vec<Container> = Vec::new();
    let mut i: usize = 0;
    assert(views.take(0) =~= Seq::<JsonView>::empty());
    assert(out.deep_view() =~= Seq::<ContainerView>::empty());
    while i < rows.len()
        invariant
            views == rows.deep_view(),
            i <= rows@.len(),
            containers_of(project@, views.take(i as int)) == Some(out.deep_view()),
        decreases rows@.len() - i,
    {
        assert(views.take(i + 1).drop_last() =~= views.take(i as int));
        assert(views.take(i + 1).last() == rows@[i as int].deep_view());
        match (rows[i].member_text("Service"), rows[i].member_text("State")) {
            (Some(service), Some(state)) => {
                let ghost before = out.deep_view();
                let status = if same_ignoring_case(state.as_str(), "running") {
                    Level::Normal
                } else {
                    Level::Critical
                };
                let container = Container { project: project.to_owned(), service, state, status };
                out.push(container);
                assert(out.deep_view() =~= before.push(container.deep_view()));
            },
            _ => {
                proof {
                    lemma_containers_fail(project@, views, i + 1);
                }
                return None;
            },
        }
        i = i + 1;
    }
    assert(views.take(i as int) =~= views);
    Some(out)
}

/// The containers of a project, from the output of `docker compose ps`.
pub fn parse_containers(project: &str, text: &str) -> (r: Option<Vec<Container>>)
    ensures
        r.deep_view() == listed_containers(project@, text@),
{
    match rows(text) {
        Ok(rows) => containers_from_rows(project, &rows),
        Err(_) => None,
    }
}

/// What was found of the containers of the configured projects.
#[derive(Debug)]
pub struct ContainerSummary {
    pub containers: Vec<Container>,
    pub status: Level,
    pub message: Option<&'static str>,
}

/// All containers that were listed, project by project.
pub open spec fn all_containers(found: Seq<Option<Seq<ContainerView>>>) -> Seq<ContainerView>
    decreases found.len(),
{
    if found.len() == 0 {
        Seq::empty()
    } else {
        match found.last() {
            Some(containers) => all_containers(found.drop_last()) + containers,
            None => all_containers(found.drop_last()),
        }
    }
}

/// What is said of a project whose containers could not be listed, or that has none.
pub open spec fn project_message(found: Option<Seq<ContainerView>>) -> Option<Text> {
    match found {
        Some(containers) => if containers.len() == 0 {
            Some("No containers for a configured project"@)
        } else {
            None
        },
        None => Some("Containers unavailable"@),
    }
}

/// What is said of the last project about which something is to be said.
pub open spec fn last_message(found: Seq<Option<Seq<ContainerView>>>) -> Option<Text>
    decreases found.len(),
{
    if found.len() == 0 {
        None
    } else if project_message(found.last()) is Some {
        project_message(found.last())
    } else {
        last_message(found.drop_last())
    }
}

/// Whether a container is critical.
pub open spec fn any_critical(containers: Seq<ContainerView>) -> bool {
    exists|i: int| 0 <= i < containers.len() && (#[trigger] containers[i]).status == Level::Critical
}

/// The level of all containers together: critical where one is stopped; else unknown where
/// something is to be said of a project; else normal.
pub open spec fn containers_level(found: Seq<Option<Seq<ContainerView>>>) -> Level {
    if any_critical(all_containers(found)) {
        Level::Critical
    } else if last_message(found) is Some {
        Level::Unknown
    } else {
        Level::Normal
    }
}

fn has_critical(containers: &Vec<Container>) -> (r: bool)
    ensures
        r == any_critical(containers.deep_view()),
{
    let mut i: usize = 0;
    while i < containers.len()
        invariant
            i <= containers@.len(),
            forall|j: int| 0 <= j < i ==> (#[trigger] containers@[j]).status != Level::Critical,
        decreases containers@.len() - i,
    {
        if containers[i].status == Level::Critical {
            assert(containers.deep_view()[i as int].status == Level::Critical);
            return true;
        }
        i = i + 1;
    }
    assert forall|j: int| 0 <= j < containers.deep_view().len() implies (
    #[trigger] containers.deep_view()[j]).status != Level::Critical by {
        assert(containers@[j].status != Level::Critical);
    }
    false
}

/// Whether containers, their level and a message tell of all projects together. Each entry of
/// `found` holds what was listed for one project; `None` stands for a list of projects, or of
/// containers, that could not be had.
pub open spec fn is_summary(
    found: Option<Seq<Option<Seq<ContainerView>>>>,
    containers: Seq<ContainerView>,
    status: Level,
    message: Option<Text>,
) -> bool {
    match found {
        Some(found) => {
            &&& containers == all_containers(found)
            &&& status == containers_level(found)
            &&& message == last_message(found)
        },
        None => {
            &&& containers.len() == 0
            &&& status == Level::Unknown
            &&& message == Some("Containers unavailable"@)
        },
    }
}

/// The containers of all projects together.
pub fn summarize(found: Option<Vec<Option<Vec<Container>>>>) -> (r: ContainerSummary)
    ensures
        is_summary(
            found.deep_view(),
            r.containers.deep_view(),
            r.status,
            r.message.deep_view(),
        ),
{
    let mut containers: Vec<Container> = Vec::new();
    let Some(mut found) = found else {
        return ContainerSummary {
            containers,
            status: Level::Unknown,
            message: Some("Containers unavailable"),
        };
    };
    let ghost views = found.deep_view();
    let mut status = Level::Normal;
    let mut message: Option<&'static str> = None;
    let total: usize = found.len();
    let mut i: usize = 0;
    assert(views.take(0) =~= Seq::empty());
    assert(containers.deep_view() =~= Seq::<ContainerView>::empty());
    while i < total
        invariant
            i <= total,
            total == views.len(),
            found@.len() == total,
            forall|j: int| i <= j < total ==> (#[trigger] found@[j]).deep_view() == views[j],
            containers.deep_view() == all_containers(views.take(i as int)),
            status == containers_level(views.take(i as int)),
            message.deep_view() == last_message(views.take(i as int)),
        decreases total - i,
    {
        let ghost before = containers.deep_view();
        assert(views.take(i + 1).drop_last() =~= views.take(i as int));
        assert(views.take(i + 1).last() == views[i as int]);
        let mut listed: Option<Vec<Container>> = None;
        std::mem::swap(&mut listed, &mut found[i]);
        assert(listed.deep_view() == views[i as int]);
        match listed {
            Some(mut list) => {
                let ghost own = list.deep_view();
                let critical = has_critical(&list);
                if list.len() == 0 {
                    if status != Level::Critical {
                        status = Level::Unknown;
                    }
                    message = Some("No containers for a configured project");
                } else if critical {
                    status = Level::Critical;
                }
                containers.append(&mut list);
                assert(containers.deep_view() =~= before + own);
                proof {
                    lemma_critical_in_either(before, own);
                }
            },
            None => {
                if status != Level::Critical {
                    status = Level::Unknown;
                }
                message = Some("Containers unavailable");
            },
        }
        i = i + 1;
    }
    assert(views.take(i as int) =~= views);
    ContainerSummary { containers, status, message }
}

proof fn lemma_critical_in_either(a: Seq<ContainerView>, b: Seq<ContainerView>)
    ensures
        any_critical(a + b) == (any_critical(a) || any_critical(b)),
{
    if any_critical(a) {
        let i = choose|i: int| 0 <= i < a.len() && (#[trigger] a[i]).status == Level::Critical;
        assert((a + b)[i].status == Level::Critical);
    }
    if any_critical(b) {
        let i = choose|i: int| 0 <= i < b.len() && (#[trigger] b[i]).status == Level::Critical;
        assert((a + b)[a.len() + i].status == Level::Critical);
    }
    if any_critical(a + b) {
        let i = choose|i: int|
            0 <= i < (a + b).len() && (#[trigger] (a + b)[i]).status == Level::Critical;
        if i < a.len() {
            assert(a[i].status == Level::Critical);
        } else {
            assert(b[i - a.len()].status == Level::Critical);
        }
    }
}

/// A configured project without containers is never critical by itself: without a stopped
/// container the whole is unknown.
pub proof fn law_no_containers_is_unknown(found: Seq<Option<Seq<ContainerView>>>, at: int)
    requires
        0 <= at < found.len(),
        found[at] matches Some(containers) && containers.len() == 0,
        !any_critical(all_containers(found)),
    ensures
        containers_level(found) == Level::Unknown,
{
    lemma_message_is_kept(found, at);
}

proof fn lemma_message_is_kept(found: Seq<Option<Seq<ContainerView>>>, at: int)
    requires
        0 <= at < found.len(),
        project_message(found[at]) is Some,
    ensures
        last_message(found) is Some,
    decreases found.len(),
{
    if at < found.len() - 1 {
        lemma_message_is_kept(found.drop_last(), at);
    }
}

// ---------------------------------------------------------------------------------------------
// Sizes
// ---------------------------------------------------------------------------------------------

/// The number of units nearest to a number; of two that are equally near, the even one.
pub open spec fn nearest(n: nat, unit: nat) -> nat {
    if 2 * (n % unit) > unit || (2 * (n % unit) == unit && (n / unit) % 2 == 1) {
        n / unit + 1
    } else {
        n / unit
    }
}

/// The unit, from a given one on, in which a number has no more than 53 bits.
pub open spec fn precision(n: nat, unit: nat) -> nat
    decreases n / unit,
    when unit > 0
{
    if n < 0x20_0000_0000_0000 * unit {
        unit
    } else {
        proof {
            lemma_halved(n, unit);
        }
        precision(n, 2 * unit)
    }
}

pub proof fn lemma_halved(n: nat, unit: nat)
    requires
        unit > 0,
        n >= 0x20_0000_0000_0000 * unit,
    ensures
        n / (2 * unit) < n / unit,
{
    let half = n / (2 * unit);
    assert(n / unit >= 1) by (nonlinear_arith)
        requires
            n >= unit,
            unit > 0,
    ;
    assert(2 * half <= n / unit) by (nonlinear_arith)
        requires
            half == n / (2 * unit),
            unit > 0,
    ;
}

/// A number of bytes as a number of double precision holds it.
pub open spec fn double(n: nat) -> nat {
    nearest(n, precision(n, 1)) * precision(n, 1)
}

/// A number of bytes in gibibytes, with one digit behind the point.
pub open spec fn size_text(bytes: nat) -> Text {
    let tenths = nearest(10 * double(bytes), 0x4000_0000);
    decimal(tenths / 10) + "."@ + decimal(tenths % 10) + " GiB"@
}

fn nearest_units(n: u128, unit: u128) -> (r: u128)
    requires
        0 < unit < 0x1_0000_0000_0000_0000,
        n < 0x1_0000_0000_0000_0000_0000,
    ensures
        r == nearest(n as nat, unit as nat),
{
    let whole: u128 = n / unit;
    let rest: u128 = n % unit;
    assert(whole <= n) by (nonlinear_arith)
        requires
            whole == n / unit,
            unit > 0,
    ;
    if 2 * rest > unit || (2 * rest == unit && whole % 2 == 1) {
        whole + 1
    } else {
        whole
    }
}

fn as_double(n: u64) -> (r: u128)
    ensures
        r == double(n as nat),
        r <= 0x2_0000_0000_0000_0000,
{
    let number: u128 = n as u128;
    let mut unit: u128 = 1;
    while number >= 0x20_0000_0000_0000 * unit
        invariant
            number == n,
            number < 0x1_0000_0000_0000_0000,
            0 < unit <= 0x1000,
            precision(n as nat, 1) == precision(n as nat, unit as nat),
        decreases 0x2000 - unit,
    {
        unit = 2 * unit;
    }
    let units: u128 = nearest_units(number, unit);
    assert(number / unit < 0x20_0000_0000_0000) by (nonlinear_arith)
        requires
            number < 0x20_0000_0000_0000 * unit,
            unit > 0,
    ;
    assert(units * unit <= 0x20_0000_0000_0000 * 0x1000) by (nonlinear_arith)
        requires
            units <= 0x20_0000_0000_0000,
            0 < unit <= 0x1000,
    ;
    units * unit
}

/// A number of bytes in gibibytes, with one digit behind the point.
pub fn size(bytes: u64) -> (r: String)
    ensures
        r@ == size_text(bytes as nat),
{
    let tenths: u128 = nearest_units(10 * as_double(bytes), 0x4000_0000);
    let mut out = to_decimal(tenths / 10);
    out.append(".");
    out.append(to_decimal(tenths % 10).as_str());
    out.append(" GiB");
    out
}

// ---------------------------------------------------------------------------------------------
// The snapshot
// ---------------------------------------------------------------------------------------------

/// The state of the host at a time. The share of the processor and the load are kept as they are
/// shown.
#[derive(Debug)]
pub struct Snapshot {
    pub version: u8,
    pub collected_at_unix: u64,
    pub thresholds: Thresholds,
    pub cpu: Metric<String>,
    pub load: Metric<String>,
    pub memory: Metric<Memory>,
    pub disks: Vec<Metric<Disk>>,
    pub docker: Metric<DockerUsage>,
    pub containers: Vec<Container>,
    pub containers_status: Level,
    pub containers_message: Option<&'static str>,
    pub services: Vec<ServiceHealth>,
}

/// The line about a measurement.
pub open spec fn metric_line(label: Text, value: Text, level: Level) -> Text {
    "  "@ + padded_right(label, 12) + " "@ + value + " ["@ + level_name(level) + "]"@
}

/// A value that may be missing, in words.
pub open spec fn value_text(value: Option<Text>) -> Text {
    match value {
        Some(text) => text,
        None => "unavailable"@,
    }
}

pub open spec fn memory_text(memory: Option<Memory>) -> Text {
    match memory {
        Some(memory) => size_text(memory.used_bytes as nat) + " / "@ + size_text(
            memory.total_bytes as nat,
        ),
        None => "unavailable"@,
    }
}

pub open spec fn disk_text(disk: Option<Disk>) -> Text {
    match disk {
        Some(disk) => disk.mount@ + ": "@ + size_text(disk.used_bytes as nat) + " / "@ + size_text(
            disk.total_bytes as nat,
        ),
        None => "unavailable"@,
    }
}

pub open spec fn docker_text(docker: Option<DockerView>) -> Text {
    match docker {
        Some(docker) => "images "@ + docker.images + ", containers "@ + docker.containers
            + ", volumes "@ + docker.volumes,
        None => "unavailable"@,
    }
}

pub open spec fn container_line(container: ContainerView) -> Text {
    metric_line(
        "Container"@,
        container.project + " / "@ + container.service + ": "@ + container.state,
        container.status,
    )
}

/// The lines about the host.
pub open spec fn host_lines(snapshot: Snapshot) -> Seq<Text> {
    seq![
        "HOST"@,
        metric_line("CPU"@, value_text(snapshot.cpu.value.deep_view()), snapshot.cpu.status),
        metric_line("Load"@, value_text(snapshot.load.value.deep_view()), snapshot.load.status),
        metric_line("RAM"@, memory_text(snapshot.memory.value), snapshot.memory.status),
    ] + snapshot.disks@.map_values(
        |disk: Metric<Disk>| metric_line("Disk"@, disk_text(disk.value), disk.status),
    ) + seq![
        metric_line(
            "Docker"@,
            docker_text(snapshot.docker.value.deep_view()),
            snapshot.docker.status,
        ),
    ] + snapshot.containers.deep_view().map_values(
        |container: ContainerView| container_line(container),
    ) + (match snapshot.containers_message.deep_view() {
        Some(message) => seq![
            metric_line("Containers"@, message, snapshot.containers_status),
        ],
        None => Seq::empty(),
    })
}

/// The report about the host.
pub open spec fn rendered(snapshot: Snapshot) -> Text {
    joined(host_lines(snapshot), "\n"@)
}

fn show_metric(label: &str, value: &str, level: Level) -> (r: String)
    ensures
        r@ == metric_line(label@, value@, level),
{
    let mut line = "  ".to_owned();
    line.append(pad_right(label, 12).as_str());
    line.append(" ");
    line.append(value);
    line.append(" [");
    line.append(level.name());
    line.append("]");
    line
}

fn show_value(value: &Option<String>) -> (r: String)
    ensures
        r@ == value_text(value.deep_view()),
{
    match value {
        Some(text) => text.clone(),
        None => "unavailable".to_owned(),
    }
}

fn show_memory(memory: &Option<Memory>) -> (r: String)
    ensures
        r@ == memory_text(*memory),
{
    match memory {
        Some(memory) => {
            let mut out = size(memory.used_bytes);
            out.append(" / ");
            out.append(size(memory.total_bytes).as_str());
            out
        },
        None => "unavailable".to_owned(),
    }
}

fn show_disk(disk: &Option<Disk>) -> (r: String)
    ensures
        r@ == disk_text(*disk),
{
    match disk {
        Some(disk) => {
            let mut out = disk.mount.clone();
            out.append(": ");
            out.append(size(disk.used_bytes).as_str());
            out.append(" / ");
            out.append(size(disk.total_bytes).as_str());
            out
        },
        None => "unavailable".to_owned(),
    }
}

fn show_docker(docker: &Option<DockerUsage>) -> (r: String)
    ensures
        r@ == docker_text(docker.deep_view()),
{
    match docker {
        Some(docker) => {
            let mut out = "images ".to_owned();
            out.append(docker.images.as_str());
            out.append(", containers ");
            out.append(docker.containers.as_str());
            out.append(", volumes ");
            out.append(docker.volumes.as_str());
            out
        },
        None => "unavailable".to_owned(),
    }
}

fn show_container(container: &Container) -> (r: String)
    ensures
        r@ == container_line(container.deep_view()),
{
    let mut value = container.project.clone();
    value.append(" / ");
    value.append(container.service.as_str());
    value.append(": ");
    value.append(container.state.as_str());
    show_metric("Container", value.as_str(), container.status)
}

/// The report about the host.
pub fn render(snapshot: &Snapshot) -> (r: String)
    ensures
        r@ == rendered(*snapshot),
{
    let mut lines: Vec<String> = Vec::new();
    assert(lines.deep_view() =~= Seq::<Text>::empty());
    let cpu = show_metric("CPU", show_value(&snapshot.cpu.value).as_str(), snapshot.cpu.status);
    let load = show_metric(
        "Load",
        show_value(&snapshot.load.value).as_str(),
        snapshot.load.status,
    );
    let memory = show_metric(
        "RAM",
        show_memory(&snapshot.memory.value).as_str(),
        snapshot.memory.status,
    );
    add_word(&mut lines, "HOST");
    add_word(&mut lines, cpu.as_str());
    add_word(&mut lines, load.as_str());
    add_word(&mut lines, memory.as_str());
    let ghost first = lines.deep_view();
    assert(first =~= seq!["HOST"@, cpu@, load@, memory@]);
    let ghost disks = snapshot.disks@.map_values(
        |disk: Metric<Disk>| metric_line("Disk"@, disk_text(disk.value), disk.status),
    );
    let mut i: usize = 0;
    assert(first + disks.take(0) =~= first);
    while i < snapshot.disks.len()
        invariant
            disks == snapshot.disks@.map_values(
                |disk: Metric<Disk>| metric_line("Disk"@, disk_text(disk.value), disk.status),
            ),
            i <= snapshot.disks@.len(),
            lines.deep_view() == first + disks.take(i as int),
        decreases snapshot.disks@.len() - i,
    {
        let disk = &snapshot.disks[i];
        let line = show_metric("Disk", show_disk(&disk.value).as_str(), disk.status);
        add_word(&mut lines, line.as_str());
        assert(first + disks.take(i + 1) =~= (first + disks.take(i as int)).push(line@));
        i = i + 1;
    }
    assert(disks.take(i as int) =~= disks);
    let docker = show_metric(
        "Docker",
        show_docker(&snapshot.docker.value).as_str(),
        snapshot.docker.status,
    );
    add_word(&mut lines, docker.as_str());
    let ghost second = lines.deep_view();
    assert(second =~= first + disks + seq![docker@]);
    let ghost views = snapshot.containers.deep_view();
    let ghost containers = views.map_values(|container: ContainerView| container_line(container));
    let mut k: usize = 0;
    assert(second + containers.take(0) =~= second);
    while k < snapshot.containers.len()
        invariant
            views == snapshot.containers.deep_view(),
            containers == views.map_values(|container: ContainerView| container_line(container)),
            k <= snapshot.containers@.len(),
            lines.deep_view() == second + containers.take(k as int),
        decreases snapshot.containers@.len() - k,
    {
        let line = show_container(&snapshot.containers[k]);
        add_word(&mut lines, line.as_str());
        assert(second + containers.take(k + 1) =~= (second + containers.take(k as int)).push(
            line@,
        ));
        k = k + 1;
    }
    assert(containers.take(k as int) =~= containers);
    let ghost third = lines.deep_view();
    match snapshot.containers_message {
        Some(message) => {
            let line = show_metric("Containers", message, snapshot.containers_status);
            add_word(&mut lines, line.as_str());
            assert(lines.deep_view() =~= third + seq![line@]);
        },
        None => {
            assert(third + Seq::<Text>::empty() =~= third);
        },
    }
    assert(lines.deep_view() =~= host_lines(*snapshot));
    join(&lines, "\n")
}

/// The report about the host and the services that run on it.
pub fn report(snapshot: &Snapshot) -> (r: String)
    ensures
        r@ == rendered(*snapshot) + "\n"@ + rendered_services(snapshot.services.deep_view()),
{
    let mut out = render(snapshot);
    out.append("\n");
    out.append(render_services(&snapshot.services).as_str());
    out
}

// ---------------------------------------------------------------------------------------------
// Collecting
// ---------------------------------------------------------------------------------------------

/// A mounted filesystem, with its bytes in use and in all where they could be had.
#[derive(Debug)]
pub struct MountUsage {
    pub mount: String,
    pub usage: Option<(u64, u64)>,
}

/// What was read of the host. The share of the processor and the load are given as they are
/// shown, memory as the text of `/proc/meminfo`, Docker as the output of `docker system df`, and
/// the projects by the containers that were listed for each.
#[derive(Debug)]
pub struct Readings {
    pub collected_at_unix: u64,
    pub thresholds: Thresholds,
    pub cpu: Option<String>,
    pub load: Option<String>,
    pub memory: Option<String>,
    pub disks: Vec<MountUsage>,
    pub docker: Option<String>,
    pub projects: Option<Vec<Option<Vec<Container>>>>,
    pub services: Vec<ServiceHealth>,
}

/// Whether a measurement is that of a value without limits, which may be missing.
pub open spec fn is_shown(value: Option<Text>, message: Text, metric: Metric<String>) -> bool {
    match value {
        Some(text) => {
            &&& metric.value.deep_view() == Some(text)
            &&& metric.status == Level::Normal
            &&& metric.message is None
        },
        None => is_missing(metric, message),
    }
}

/// Whether measurements are those of the disks: one for each mount, or one that is missing where
/// there is no mount.
pub open spec fn are_disks(
    mounts: Seq<MountUsage>,
    thresholds: Thresholds,
    metrics: Seq<Metric<Disk>>,
) -> bool {
    if mounts.len() == 0 {
        metrics.len() == 1 && is_missing(metrics[0], "Disk unavailable"@)
    } else {
        &&& metrics.len() == mounts.len()
        &&& forall|i: int|
            0 <= i < mounts.len() ==> is_disk(
                (#[trigger] mounts[i]).mount@,
                mounts[i].usage,
                thresholds,
                metrics[i],
            )
    }
}

/// Whether a measurement is that of the space that Docker uses, by the output of
/// `docker system df` where it could be had.
pub open spec fn is_docker(output: Option<Text>, metric: Metric<DockerUsage>) -> bool {
    match (match output {
        Some(output) => docker_usage(output),
        None => None,
    }) {
        Some(usage) => {
            &&& metric.value.deep_view() == Some(usage)
            &&& metric.status == Level::Normal
            &&& metric.message is None
        },
        None => is_missing(metric, "Docker unavailable"@),
    }
}

/// Whether a snapshot tells what was read, all of it and nothing else.
pub open spec fn is_snapshot(readings: Readings, snapshot: Snapshot) -> bool {
    &&& snapshot.version == 1
    &&& snapshot.collected_at_unix == readings.collected_at_unix
    &&& snapshot.thresholds == readings.thresholds
    &&& is_shown(readings.cpu.deep_view(), "CPU unavailable"@, snapshot.cpu)
    &&& is_shown(readings.load.deep_view(), "Load unavailable"@, snapshot.load)
    &&& is_memory(readings.memory.deep_view(), readings.thresholds, snapshot.memory)
    &&& are_disks(readings.disks@, readings.thresholds, snapshot.disks@)
    &&& is_docker(readings.docker.deep_view(), snapshot.docker)
    &&& is_summary(
        readings.projects.deep_view(),
        snapshot.containers.deep_view(),
        snapshot.containers_status,
        snapshot.containers_message.deep_view(),
    )
    &&& snapshot.services == readings.services
}

fn shown_metric(value: Option<String>, message: &'static str) -> (r: Metric<String>)
    ensures
        is_shown(value.deep_view(), message@, r),
{
    match value {
        Some(text) => Metric::known(text, Level::Normal),
        None => Metric::unknown(message),
    }
}

fn disk_metrics(mounts: Vec<MountUsage>, thresholds: Thresholds) -> (r: Vec<Metric<Disk>>)
    ensures
        are_disks(mounts@, thresholds, r@),
{
    let mut out: Vec<Metric<Disk>> = Vec::new();
    if mounts.len() == 0 {
        out.push(Metric::unknown("Disk unavailable"));
        return out;
    }
    let mut i: usize = 0;
    while i < mounts.len()
        invariant
            i <= mounts@.len(),
            out@.len() == i,
            forall|j: int|
                0 <= j < i ==> is_disk(
                    (#[trigger] mounts@[j]).mount@,
                    mounts@[j].usage,
                    thresholds,
                    out@[j],
                ),
        decreases mounts@.len() - i,
    {
        out.push(disk_metric(mounts[i].mount.clone(), mounts[i].usage, thresholds));
        i = i + 1;
    }
    out
}

/// The measurement of the space that Docker uses, from the output of `docker system df` where it
/// could be had.
pub fn docker_metric(output: Option<&str>) -> (r: Metric<DockerUsage>)
    ensures
        is_docker(output.deep_view(), r),
{
    let usage = match output {
        Some(output) => parse_docker_df(output),
        None => None,
    };
    match usage {
        Some(usage) => Metric::known(usage, Level::Normal),
        None => Metric::unknown("Docker unavailable"),
    }
}

/// The snapshot of the host, from what was read.
pub fn collect(readings: Readings) -> (r: Snapshot)
    ensures
        is_snapshot(readings, r),
{
    let thresholds = readings.thresholds;
    let memory = memory_metric(
        match &readings.memory {
            Some(text) => Some(text.as_str()),
            None => None,
        },
        thresholds,
    );
    let docker = docker_metric(
        match &readings.docker {
            Some(output) => Some(output.as_str()),
            None => None,
        },
    );
    let summary = summarize(readings.projects);
    Snapshot {
        version: 1,
        collected_at_unix: readings.collected_at_unix,
        thresholds,
        cpu: shown_metric(readings.cpu, "CPU unavailable"),
        load: shown_metric(readings.load, "Load unavailable"),
        memory,
        disks: disk_metrics(readings.disks, thresholds),
        docker,
        containers: summary.containers,
        containers_status: summary.status,
        containers_message: summary.message,
        services: readings.services,
    }
}

/// What could not be read is unknown in the snapshot, and says so; it hides nothing else that was
/// read.
pub proof fn law_missing_is_unknown(readings: Readings, snapshot: Snapshot)
    requires
        is_snapshot(readings, snapshot),
    ensures
        snapshot.cpu.status == Level::Unknown <==> readings.cpu is None,
        snapshot.load.status == Level::Unknown <==> readings.load is None,
        snapshot.memory.status == Level::Unknown <==> snapshot.memory.value is None,
        snapshot.docker.status == Level::Unknown <==> snapshot.docker.value is None,
        readings.memory is None ==> snapshot.memory.value is None,
        readings.docker is None ==> snapshot.docker.value is None,
        readings.projects is None ==> snapshot.containers_status == Level::Unknown,
        snapshot.disks@.len() > 0,
        forall|i: int|
            0 <= i < readings.disks@.len() && readings.disks@[i].usage is None ==> (
            #[trigger] snapshot.disks@[i]).status == Level::Unknown,
{
    assert forall|i: int| 0 <= i < readings.disks@.len() && readings.disks@[i].usage is None implies (
    #[trigger] snapshot.disks@[i]).status == Level::Unknown by {
        assert(is_disk(
            readings.disks@[i].mount@,
            readings.disks@[i].usage,
            readings.thresholds,
            snapshot.disks@[i],
        ));
    }
}

// ---------------------------------------------------------------------------------------------
// What the report says
// ---------------------------------------------------------------------------------------------

/// The thresholds without settings are 80 and 90 percent for a disk and 85 for memory. A setting
/// counts where it is a number up to 100, and a critical level below the warning level is raised to
/// it.
pub proof fn law_thresholds_follow_the_settings(
    warn: Option<&str>,
    crit: Option<&str>,
    memory: Option<&str>,
    r: Thresholds,
)
    requires
        call_ensures(Thresholds::from_settings, (warn, crit, memory), r),
    ensures
        warn is None ==> r.disk_warn_percent == 80,
        warn is None && crit is None ==> r.disk_crit_percent == 90,
        memory is None ==> r.mem_pressure_percent == 85,
        warn matches Some(text) ==> (match number_up_to(text@, 100) {
            Some(n) => r.disk_warn_percent == n,
            None => r.disk_warn_percent == 80,
        }),
        crit matches Some(text) ==> (match number_up_to(text@, 100) {
            Some(n) => r.disk_crit_percent == n || n < r.disk_warn_percent
                == r.disk_crit_percent,
            None => r.disk_crit_percent == 90 || 90 < r.disk_warn_percent == r.disk_crit_percent,
        }),
        memory matches Some(text) ==> (match number_up_to(text@, 100) {
            Some(n) => r.mem_pressure_percent == n,
            None => r.mem_pressure_percent == 85,
        }),
        r.disk_warn_percent <= r.disk_crit_percent <= 100,
{
}

/// The level of a use: critical exactly above the critical percentage, warning exactly above the
/// other and not above that one, normal otherwise.
pub proof fn law_levels_follow_the_percentages(
    used: nat,
    total: nat,
    warn: nat,
    crit: nat,
)
    ensures
        level_of(used, total, warn, Some(crit)) == Level::Critical <==> 100 * used > crit * total,
        level_of(used, total, warn, Some(crit)) == Level::Warning <==> crit * total >= 100 * used
            > warn * total,
        level_of(used, total, warn, Some(crit)) == Level::Normal <==> 100 * used <= crit * total
            && 100 * used <= warn * total,
        level_of(used, total, warn, None) == Level::Warning <==> 100 * used > warn * total,
        level_of(used, total, warn, None) == Level::Normal <==> 100 * used <= warn * total,
{
}

/// Between two readings the processor was busy for all the time that it was not idle.
pub proof fn law_busy_and_idle_make_the_whole(
    first: (nat, nat),
    second: (nat, nat),
)
    ensures
        match busy_between(first, second) {
            Some((busy, total)) => {
                &&& first.1 + total == second.1
                &&& first.0 + (total - busy) == second.0
                &&& busy <= total && 0 < total
            },
            None => second.1 <= first.1 || second.0 < first.0 || second.0 - first.0 > second.1
                - first.1,
        },
{
}

proof fn lemma_numbers_of(words: Seq<Text>, counters: Seq<nat>)
    requires
        words.len() == counters.len(),
        forall|i: int|
            0 <= i < words.len() ==> number_up_to(#[trigger] words[i], u64::MAX as nat) == Some(
                counters[i],
            ),
    ensures
        numbers_of(words) == Some(counters),
    decreases words.len(),
{
    if words.len() > 0 {
        lemma_numbers_of(words.drop_last(), counters.drop_last());
        assert(number_up_to(words[words.len() - 1], u64::MAX as nat) == Some(
            counters[counters.len() - 1],
        ));
        assert(counters =~= counters.drop_last().push(counters.last()));
    } else {
        assert(counters =~= Seq::empty());
    }
}

/// The times of the processor are read from the first line: the fourth and the fifth number are
/// idle time, and all of them together are the whole.
pub proof fn law_processor_times_are_the_counters(
    text: Text,
    user: nat,
    nice: nat,
    system: nat,
    idle: nat,
    wait: nat,
    words: Seq<Text>,
)
    requires
        lines_of(text).len() > 0,
        words == words_of(lines_of(text)[0]),
        words.len() == 6,
        words[0] == "cpu"@,
        number_up_to(words[1], u64::MAX as nat) == Some(user),
        number_up_to(words[2], u64::MAX as nat) == Some(nice),
        number_up_to(words[3], u64::MAX as nat) == Some(system),
        number_up_to(words[4], u64::MAX as nat) == Some(idle),
        number_up_to(words[5], u64::MAX as nat) == Some(wait),
        user + nice + system + idle + wait <= u64::MAX,
    ensures
        cpu_times(text) == Some((idle + wait, user + nice + system + idle + wait)),
{
    let counters = seq![user, nice, system, idle, wait];
    let rest = words.skip(1);
    assert forall|i: int| 0 <= i < rest.len() implies number_up_to(
        #[trigger] rest[i],
        u64::MAX as nat,
    ) == Some(counters[i]) by {
        assert(rest[i] == words[i + 1]);
    }
    lemma_numbers_of(rest, counters);
    assert(counters.drop_last() =~= seq![user, nice, system, idle]);
    assert(seq![user, nice, system, idle].drop_last() =~= seq![user, nice, system]);
    assert(seq![user, nice, system].drop_last() =~= seq![user, nice]);
    assert(seq![user, nice].drop_last() =~= seq![user]);
    assert(seq![user].drop_last() =~= Seq::<nat>::empty());
    assert(sum(Seq::<nat>::empty()) == 0);
    assert(sum(seq![user]) == user);
    assert(sum(seq![user, nice]) == user + nice);
    assert(sum(seq![user, nice, system]) == user + nice + system);
    assert(sum(seq![user, nice, system, idle]) == user + nice + system + idle);
    assert(sum(counters) == user + nice + system + idle + wait);
}

/// Whether a line gives a size in kilobytes under a name.
pub open spec fn gives(line: Text, name: Text, bytes: nat) -> bool {
    &&& words_of(line).len() >= 3
    &&& words_of(line)[0] == name
    &&& words_of(line)[2] == "kB"@
    &&& number_up_to(words_of(line)[1], u64::MAX as nat) matches Some(kb) && bytes == kb * 1024
}

proof fn lemma_memory_lines(lines: Seq<Text>)
    ensures
        memory_lines(lines) matches Some((total, available)) ==> {
            &&& total matches Some(bytes) ==> exists|i: int|
                0 <= i < lines.len() && gives(#[trigger] lines[i], "MemTotal:"@, bytes)
            &&& available matches Some(bytes) ==> exists|i: int|
                0 <= i < lines.len() && gives(#[trigger] lines[i], "MemAvailable:"@, bytes)
        },
    decreases lines.len(),
{
    if lines.len() > 0 {
        let shorter = lines.drop_last();
        lemma_memory_lines(shorter);
        reveal_strlit("MemTotal:");
        reveal_strlit("MemAvailable:");
        assert("MemTotal:"@.len() != "MemAvailable:"@.len());
        if let Some((total, available)) = memory_lines(lines) {
            if let Some(bytes) = total {
                if (memory_lines(shorter)->0).0 == total && words_of(lines.last())[0]
                    != "MemTotal:"@ {
                    let i = choose|i: int|
                        0 <= i < shorter.len() && gives(#[trigger] shorter[i], "MemTotal:"@, bytes);
                    assert(lines[i] == shorter[i]);
                } else {
                    assert(gives(lines[lines.len() - 1], "MemTotal:"@, bytes));
                }
            }
            if let Some(bytes) = available {
                if (memory_lines(shorter)->0).1 == available && words_of(lines.last())[0]
                    != "MemAvailable:"@ {
                    let i = choose|i: int|
                        0 <= i < shorter.len() && gives(
                            #[trigger] shorter[i],
                            "MemAvailable:"@,
                            bytes,
                        );
                    assert(lines[i] == shorter[i]);
                } else {
                    assert(gives(lines[lines.len() - 1], "MemAvailable:"@, bytes));
                }
            }
        }
    }
}

/// The memory in all is what a line `MemTotal:` gives in kilobytes, and that in use is what is left
/// of it without what a line `MemAvailable:` gives.
pub proof fn law_memory_in_use_is_not_available(text: Text)
    ensures
        memory_of(text) matches Some((used, total)) ==> {
            &&& 0 < total && used <= total
            &&& exists|i: int|
                0 <= i < lines_of(text).len() && gives(
                    #[trigger] lines_of(text)[i],
                    "MemTotal:"@,
                    total,
                )
            &&& exists|i: int|
                0 <= i < lines_of(text).len() && gives(
                    #[trigger] lines_of(text)[i],
                    "MemAvailable:"@,
                    (total - used) as nat,
                )
        },
{
    lemma_memory_lines(lines_of(text));
}

/// A filesystem is in use as far as its blocks are not available.
pub proof fn law_disk_in_use_is_not_available(blocks: nat, available: nat, block_size: nat)
    ensures
        usage_of(blocks, available, block_size) matches Some((used, total)) ==> total == blocks
            * block_size && used + available * block_size == total,
        available <= blocks && blocks * block_size <= u64::MAX ==> usage_of(
            blocks,
            available,
            block_size,
        ) is Some,
        available > blocks && block_size > 0 ==> usage_of(blocks, available, block_size) is None,
{
    if available <= blocks {
        assert(available * block_size <= blocks * block_size) by (nonlinear_arith)
            requires
                available <= blocks,
        ;
    } else if block_size > 0 {
        assert(available * block_size > blocks * block_size) by (nonlinear_arith)
            requires
                available > blocks,
                block_size > 0,
        ;
    }
}

/// Whether a row of Docker's use is the last of a type, and of which size it is.
pub open spec fn is_last_of(rows: Seq<JsonView>, kind: Text, k: int, size: Text) -> bool {
    &&& 0 <= k < rows.len()
    &&& member_text(rows[k], "Type"@) == Some(kind)
    &&& member_text(rows[k], "Size"@) == Some(size)
    &&& forall|j: int|
        k < j < rows.len() ==> member_text(#[trigger] rows[j], "Type"@) != Some(kind)
}

proof fn lemma_docker_kinds()
    ensures
        "Images"@ != "Containers"@,
        "Images"@ != "Local Volumes"@,
        "Containers"@ != "Local Volumes"@,
{
    reveal_strlit("Images");
    reveal_strlit("Containers");
    reveal_strlit("Local Volumes");
    assert("Images"@[0] != "Containers"@[0]);
    assert("Images"@[0] != "Local Volumes"@[0]);
    assert("Containers"@[0] != "Local Volumes"@[0]);
}

proof fn lemma_docker_rows(rows: Seq<JsonView>, kind: Text, k: int, size: Text)
    requires
        forall|j: int|
            0 <= j < rows.len() ==> member_text(#[trigger] rows[j], "Type"@) is Some && member_text(
                rows[j],
                "Size"@,
            ) is Some,
    ensures
        docker_rows(rows) is Some,
        is_last_of(rows, kind, k, size) && kind == "Images"@ ==> (docker_rows(rows)->0).0 == Some(
            size,
        ),
        is_last_of(rows, kind, k, size) && kind == "Containers"@ ==> (docker_rows(rows)->0).1 == Some(
            size,
        ),
        is_last_of(rows, kind, k, size) && kind == "Local Volumes"@ ==> (docker_rows(rows)->0).2
            == Some(size),
    decreases rows.len(),
{
    lemma_docker_kinds();
    if rows.len() > 0 {
        let shorter = rows.drop_last();
        assert forall|j: int| 0 <= j < shorter.len() implies member_text(
            #[trigger] shorter[j],
            "Type"@,
        ) is Some && member_text(shorter[j], "Size"@) is Some by {
            assert(shorter[j] == rows[j]);
        }
        lemma_docker_rows(shorter, kind, k, size);
        assert(member_text(rows[rows.len() - 1], "Type"@) is Some);
        if is_last_of(rows, kind, k, size) && k < rows.len() - 1 {
            assert forall|j: int| k < j < shorter.len() implies member_text(
                #[trigger] shorter[j],
                "Type"@,
            ) != Some(kind) by {
                assert(shorter[j] == rows[j]);
            }
            assert(is_last_of(shorter, kind, k, size));
            assert(member_text(rows[rows.len() - 1], "Type"@) != Some(kind));
        }
    }
}

/// The use of images is the size in the last row of the type `Images`, that of containers is in the
/// last row of the type `Containers`, and that of volumes in the last of the type `Local Volumes`.
/// The text about them names each behind its own word.
pub proof fn law_docker_sizes_stand_behind_their_words(
    rows: Seq<JsonView>,
    a: int,
    images: Text,
    b: int,
    containers: Text,
    c: int,
    volumes: Text,
)
    requires
        forall|j: int|
            0 <= j < rows.len() ==> member_text(#[trigger] rows[j], "Type"@) is Some && member_text(
                rows[j],
                "Size"@,
            ) is Some,
        is_last_of(rows, "Images"@, a, images),
        is_last_of(rows, "Containers"@, b, containers),
        is_last_of(rows, "Local Volumes"@, c, volumes),
    ensures
        usage_of_rows(rows) == Some(DockerView { images, containers, volumes }),
        docker_text(usage_of_rows(rows)) == "images "@ + images + ", containers "@ + containers
            + ", volumes "@ + volumes,
{
    lemma_docker_rows(rows, "Images"@, a, images);
    lemma_docker_rows(rows, "Containers"@, b, containers);
    lemma_docker_rows(rows, "Local Volumes"@, c, volumes);
}

proof fn lemma_docker_missing(rows: Seq<JsonView>)
    ensures
        docker_rows(rows) matches Some((images, containers, volumes)) ==> {
            &&& images is Some ==> exists|k: int|
                0 <= k < rows.len() && member_text(#[trigger] rows[k], "Type"@) == Some("Images"@)
            &&& containers is Some ==> exists|k: int|
                0 <= k < rows.len() && member_text(#[trigger] rows[k], "Type"@) == Some(
                    "Containers"@,
                )
            &&& volumes is Some ==> exists|k: int|
                0 <= k < rows.len() && member_text(#[trigger] rows[k], "Type"@) == Some(
                    "Local Volumes"@,
                )
            &&& forall|k: int|
                0 <= k < rows.len() ==> member_text(#[trigger] rows[k], "Type"@) is Some
                    && member_text(rows[k], "Size"@) is Some
        },
    decreases rows.len(),
{
    if rows.len() > 0 {
        let shorter = rows.drop_last();
        lemma_docker_missing(shorter);
        lemma_docker_kinds();
        if let Some((images, containers, volumes)) = docker_rows(rows) {
            let last = rows[rows.len() - 1];
            let kind = member_text(last, "Type"@);
            assert forall|k: int| 0 <= k < rows.len() implies member_text(
                #[trigger] rows[k],
                "Type"@,
            ) is Some && member_text(rows[k], "Size"@) is Some by {
                if k < shorter.len() {
                    assert(shorter[k] == rows[k]);
                }
            }
            if images is Some && kind != Some("Images"@) {
                let k = choose|k: int|
                    0 <= k < shorter.len() && member_text(#[trigger] shorter[k], "Type"@) == Some(
                        "Images"@,
                    );
                assert(rows[k] == shorter[k]);
            }
            if containers is Some && kind != Some("Containers"@) {
                let k = choose|k: int|
                    0 <= k < shorter.len() && member_text(#[trigger] shorter[k], "Type"@) == Some(
                        "Containers"@,
                    );
                assert(rows[k] == shorter[k]);
            }
            if volumes is Some && kind != Some("Local Volumes"@) {
                let k = choose|k: int|
                    0 <= k < shorter.len() && member_text(#[trigger] shorter[k], "Type"@) == Some(
                        "Local Volumes"@,
                    );
                assert(rows[k] == shorter[k]);
            }
        }
    }
}

/// Docker's use is known only where all three types have a row, and every row has a type and a
/// size.
pub proof fn law_docker_use_needs_every_type(rows: Seq<JsonView>)
    ensures
        usage_of_rows(rows) is Some ==> {
            &&& exists|k: int|
                0 <= k < rows.len() && member_text(#[trigger] rows[k], "Type"@) == Some("Images"@)
            &&& exists|k: int|
                0 <= k < rows.len() && member_text(#[trigger] rows[k], "Type"@) == Some(
                    "Containers"@,
                )
            &&& exists|k: int|
                0 <= k < rows.len() && member_text(#[trigger] rows[k], "Type"@) == Some(
                    "Local Volumes"@,
                )
            &&& forall|k: int|
                0 <= k < rows.len() ==> member_text(#[trigger] rows[k], "Type"@) is Some
                    && member_text(rows[k], "Size"@) is Some
        },
{
    lemma_docker_missing(rows);
}

/// A metric's line holds its label, its value and its level.
pub proof fn law_metric_lines_tell_label_value_and_level(label: Text, value: Text, level: Level)
    ensures
        ({
            let line = metric_line(label, value, level);
            &&& begins(line, "  "@ + label)
            &&& holds_part(line, " "@ + value)
            &&& holds_part(
                line,
                " ["@ + (match level {
                    Level::Normal => "Normal"@,
                    Level::Warning => "Warning"@,
                    Level::Critical => "Critical"@,
                    Level::Unknown => "Unknown"@,
                }),
            )
        }),
{
    lemma_padding(label, 12);
    let p = "  "@ + padded_right(label, 12);
    let line = metric_line(label, value, level);
    lemma_holds_pair(p, " "@, value);
    let s = p + " "@ + value;
    lemma_parts_stay(s, " ["@);
    lemma_holds_pair(s, " ["@, level_name(level));
    lemma_parts_stay(s + " ["@, level_name(level));
    lemma_parts_stay(s + " ["@ + level_name(level), "]"@);
    assert(holds_part(s + " ["@, " "@ + value));
    assert(holds_part(s + " ["@ + level_name(level), " "@ + value));
    let start = "  "@ + label;
    assert(line.take(start.len() as int) =~= start) by {
        assert(p.take(start.len() as int) =~= start);
        assert(line.take(start.len() as int) =~= p.take(start.len() as int));
    }
}

proof fn lemma_padding(s: Text, width: nat)
    ensures
        padded_right(s, width).len() >= s.len(),
        padded_right(s, width).take(s.len() as int) == s,
    decreases width - s.len(),
{
    if s.len() < width {
        lemma_padding(s.push(' '), width);
        let padded = padded_right(s, width);
        assert(padded.take(s.len() as int) =~= padded.take(s.len() as int + 1).take(
            s.len() as int,
        ));
    }
    assert(padded_right(s, width).take(s.len() as int) =~= s);
}

/// The report on the host holds a line for the memory, for each disk, for Docker and for each
/// container, with what was found, and what is amiss with the containers.
pub proof fn law_report_tells_what_was_found(snapshot: Snapshot, i: int, j: int)
    ensures
        holds_part(
            rendered(snapshot),
            metric_line(
                "CPU"@,
                match snapshot.cpu.value.deep_view() {
                    Some(text) => text,
                    None => "unavailable"@,
                },
                snapshot.cpu.status,
            ),
        ),
        holds_part(
            rendered(snapshot),
            metric_line(
                "Load"@,
                match snapshot.load.value.deep_view() {
                    Some(text) => text,
                    None => "unavailable"@,
                },
                snapshot.load.status,
            ),
        ),
        snapshot.memory.value matches Some(memory) ==> holds_part(
            rendered(snapshot),
            metric_line(
                "RAM"@,
                size_text(memory.used_bytes as nat) + " / "@ + size_text(memory.total_bytes as nat),
                snapshot.memory.status,
            ),
        ),
        0 <= i < snapshot.disks@.len() ==> (snapshot.disks@[i].value matches Some(disk)
            ==> holds_part(
            rendered(snapshot),
            metric_line(
                "Disk"@,
                disk.mount@ + ": "@ + size_text(disk.used_bytes as nat) + " / "@ + size_text(
                    disk.total_bytes as nat,
                ),
                snapshot.disks@[i].status,
            ),
        )),
        snapshot.docker.value.deep_view() matches Some(docker) ==> holds_part(
            rendered(snapshot),
            metric_line(
                "Docker"@,
                "images "@ + docker.images + ", containers "@ + docker.containers + ", volumes "@
                    + docker.volumes,
                snapshot.docker.status,
            ),
        ),
        0 <= j < snapshot.containers.deep_view().len() ==> holds_part(
            rendered(snapshot),
            metric_line(
                "Container"@,
                snapshot.containers.deep_view()[j].project + " / "@
                    + snapshot.containers.deep_view()[j].service + ": "@
                    + snapshot.containers.deep_view()[j].state,
                snapshot.containers.deep_view()[j].status,
            ),
        ),
        snapshot.containers_message.deep_view() matches Some(message) ==> holds_part(
            rendered(snapshot),
            metric_line("Containers"@, message, snapshot.containers_status),
        ),
{
    let lines = host_lines(snapshot);
    let n = snapshot.disks@.len() as int;
    let m = snapshot.containers.deep_view().len() as int;
    lemma_joined_holds(lines, "\n"@, 1);
    lemma_joined_holds(lines, "\n"@, 2);
    lemma_joined_holds(lines, "\n"@, 3);
    lemma_joined_holds(lines, "\n"@, 4 + n);
    if 0 <= i < n {
        lemma_joined_holds(lines, "\n"@, 4 + i);
    }
    if 0 <= j < m {
        lemma_joined_holds(lines, "\n"@, 5 + n + j);
    }
    if snapshot.containers_message.deep_view() is Some {
        lemma_joined_holds(lines, "\n"@, 5 + n + m);
    }
}

/// What Docker lists reaches the report: where the last rows of the three types say that images,
/// containers and volumes use so much, the report says so in these words.
pub proof fn law_docker_use_is_reported(
    readings: Readings,
    snapshot: Snapshot,
    output: Text,
    rows: Seq<JsonView>,
    a: int,
    images: Text,
    b: int,
    containers: Text,
    c: int,
    volumes: Text,
)
    requires
        is_snapshot(readings, snapshot),
        readings.docker.deep_view() == Some(output),
        documents(lines_of(output)) == Ok::<Seq<JsonView>, Text>(rows),
        forall|j: int|
            0 <= j < rows.len() ==> member_text(#[trigger] rows[j], "Type"@) is Some && member_text(
                rows[j],
                "Size"@,
            ) is Some,
        is_last_of(rows, "Images"@, a, images),
        is_last_of(rows, "Containers"@, b, containers),
        is_last_of(rows, "Local Volumes"@, c, volumes),
    ensures
        holds_part(
            rendered(snapshot),
            " "@ + ("images "@ + images + ", containers "@ + containers + ", volumes "@ + volumes),
        ),
{
    law_docker_sizes_stand_behind_their_words(rows, a, images, b, containers, c, volumes);
    law_report_tells_what_was_found(snapshot, -1, -1);
    let value = "images "@ + images + ", containers "@ + containers + ", volumes "@ + volumes;
    law_metric_lines_tell_label_value_and_level("Docker"@, value, snapshot.docker.status);
    lemma_holds_inner(
        rendered(snapshot),
        metric_line("Docker"@, value, snapshot.docker.status),
        " "@ + value,
    );
}

/// A container is normal where its state is `running` and critical otherwise, and is shown under
/// its own service.
pub proof fn law_containers_that_do_not_run_are_critical(
    project: Text,
    row: JsonView,
    service: Text,
    state: Text,
)
    requires
        member_text(row, "Service"@) == Some(service),
        member_text(row, "State"@) == Some(state),
    ensures
        container_of(project, row) matches Some(container) && {
            &&& container.project == project && container.service == service && container.state
                == state
            &&& container.status == Level::Normal <==> lowercase(state) == lowercase("running"@)
            &&& container.status == Level::Critical <==> lowercase(state) != lowercase("running"@)
        },
{
}

/// The containers of all projects are critical exactly where one of them is; otherwise unknown
/// exactly where some project has none or could not be listed, and normal exactly where every
/// project has some and all are in order.
pub proof fn law_containers_level_follows_the_projects(found: Seq<Option<Seq<ContainerView>>>)
    ensures
        ({
            let critical = exists|p: int, i: int|
                0 <= p < found.len() && found[p] is Some && 0 <= i < found[p]->0.len()
                    && (#[trigger] found[p]->0[i]).status == Level::Critical;
            let missing = exists|p: int|
                0 <= p < found.len() && ((#[trigger] found[p]) is None || found[p]->0.len() == 0);
            &&& containers_level(found) == Level::Critical <==> critical
            &&& containers_level(found) == Level::Unknown <==> !critical && missing
            &&& containers_level(found) == Level::Normal <==> !critical && !missing
        }),
{
    lemma_any_critical(found);
    lemma_any_message(found);
}

proof fn lemma_any_critical(found: Seq<Option<Seq<ContainerView>>>)
    ensures
        any_critical(all_containers(found)) <==> exists|p: int, i: int|
            0 <= p < found.len() && found[p] is Some && 0 <= i < found[p]->0.len()
                && (#[trigger] found[p]->0[i]).status == Level::Critical,
    decreases found.len(),
{
    let all = all_containers(found);
    if found.len() > 0 {
        let shorter = found.drop_last();
        let before = all_containers(shorter);
        lemma_any_critical(shorter);
        if any_critical(all) {
            let k = choose|k: int|
                0 <= k < all.len() && (#[trigger] all[k]).status == Level::Critical;
            if k < before.len() {
                assert(before[k] == all[k]);
                assert(any_critical(before));
                let (p, i) = choose|p: int, i: int|
                    0 <= p < shorter.len() && shorter[p] is Some && 0 <= i < shorter[p]->0.len()
                        && (#[trigger] shorter[p]->0[i]).status == Level::Critical;
                assert(found[p]->0[i].status == Level::Critical);
            } else {
                let p = found.len() - 1;
                assert(found[p]->0[k - before.len()].status == Level::Critical);
            }
        }
        if exists|p: int, i: int|
            0 <= p < found.len() && found[p] is Some && 0 <= i < found[p]->0.len() && (
            #[trigger] found[p]->0[i]).status == Level::Critical {
            let (p, i) = choose|p: int, i: int|
                0 <= p < found.len() && found[p] is Some && 0 <= i < found[p]->0.len() && (
                #[trigger] found[p]->0[i]).status == Level::Critical;
            if p < shorter.len() {
                assert(shorter[p]->0[i].status == Level::Critical);
                let k = choose|k: int|
                    0 <= k < before.len() && (#[trigger] before[k]).status == Level::Critical;
                assert(all[k] == before[k]);
            } else {
                assert(all[before.len() + i] == found[p]->0[i]);
            }
        }
    }
}

proof fn lemma_any_message(found: Seq<Option<Seq<ContainerView>>>)
    ensures
        last_message(found) is Some <==> exists|p: int|
            0 <= p < found.len() && ((#[trigger] found[p]) is None || found[p]->0.len() == 0),
    decreases found.len(),
{
    if found.len() > 0 {
        let shorter = found.drop_last();
        lemma_any_message(shorter);
        let last = found[found.len() - 1];
        if last_message(shorter) is Some {
            let p = choose|p: int|
                0 <= p < shorter.len() && ((#[trigger] shorter[p]) is None || shorter[p]->0.len()
                    == 0);
            assert(found[p] == shorter[p]);
        }
        if exists|p: int|
            0 <= p < found.len() && ((#[trigger] found[p]) is None || found[p]->0.len() == 0) {
            let p = choose|p: int|
                0 <= p < found.len() && ((#[trigger] found[p]) is None || found[p]->0.len() == 0);
            if p < shorter.len() {
                assert(shorter[p] == found[p]);
            }
        }
    }
}

/// A mount is taken from a line exactly where, behind the first ` - `, a type of filesystem that
/// lies on a disk stands; its device is the third word and its place the fifth.
pub proof fn law_mounts_lie_on_disks(line: Text, before: Text, after: Text)
    requires
        cut(line, " - "@) == Some((before, after)),
        words_of(before).len() >= 5,
        words_of(after).len() > 0,
    ensures
        ({
            let kind = words_of(after)[0];
            mount_line(line) is Some <==> kind == "ext4"@ || kind == "xfs"@ || kind == "btrfs"@
                || kind == "zfs"@ || kind == "vfat"@ || kind == "f2fs"@
        }),
        mount_line(line) matches Some((device, mount)) ==> device == words_of(before)[2] && mount
            == words_of(before)[4],
{
}

/// A number is rounded to a multiple of a unit that no other multiple is closer to; of two that are
/// as close, to the even one.
pub proof fn law_rounding_is_nearest(n: nat, unit: nat)
    requires
        unit > 0,
    ensures
        -(unit as int) <= 2 * (n - nearest(n, unit) * unit) <= unit,
        2 * (n - nearest(n, unit) * unit) == unit || 2 * (n - nearest(n, unit) * unit)
            == -(unit as int) ==> nearest(n, unit) % 2 == 0,
{
    let q = n / unit;
    let r = n % unit;
    assert(n == q * unit + r && 0 <= r < unit) by (nonlinear_arith)
        requires
            unit > 0,
            q == n / unit,
            r == n % unit,
    ;
    assert((q + 1) * unit == q * unit + unit) by (nonlinear_arith);
}

/// The values of the metrics stand in one column: fifteen characters from the left, for every label
/// of up to twelve.
pub proof fn law_values_stand_in_one_column(label: Text, value: Text, level: Level)
    requires
        label.len() <= 12,
    ensures
        metric_line(label, value, level).skip(15).take(value.len() as int) == value,
{
    lemma_padded_length(label, 12);
    reveal_strlit("  ");
    reveal_strlit(" ");
    let line = metric_line(label, value, level);
    assert(line.skip(15).take(value.len() as int) =~= value);
}

proof fn lemma_padded_length(s: Text, width: nat)
    requires
        s.len() <= width,
    ensures
        padded_right(s, width).len() == width,
    decreases width - s.len(),
{
    if s.len() < width {
        lemma_padded_length(s.push(' '), width);
    }
}

proof fn lemma_containers_of(project: Text, rows: Seq<JsonView>)
    ensures
        match containers_of(project, rows) {
            Some(list) => list.len() == rows.len() && forall|i: int|
                0 <= i < rows.len() ==> container_of(project, #[trigger] rows[i]) == Some(list[i]),
            None => exists|i: int|
                0 <= i < rows.len() && container_of(project, #[trigger] rows[i]) is None,
        },
    decreases rows.len(),
{
    if rows.len() > 0 {
        let shorter = rows.drop_last();
        lemma_containers_of(project, shorter);
        match containers_of(project, rows) {
            Some(list) => {
                assert forall|i: int| 0 <= i < rows.len() implies container_of(
                    project,
                    #[trigger] rows[i],
                ) == Some(list[i]) by {
                    if i < shorter.len() {
                        assert(shorter[i] == rows[i]);
                    }
                }
            },
            None => {
                if containers_of(project, shorter) is None {
                    let i = choose|i: int|
                        0 <= i < shorter.len() && container_of(
                            project,
                            #[trigger] shorter[i],
                        ) is None;
                    assert(rows[i] == shorter[i]);
                } else {
                    assert(container_of(project, rows[rows.len() - 1]) is None);
                }
            },
        }
    }
}

/// Every row of a listing gives one container, in the order of the rows, with the service and the
/// state of the row; a row without either makes the listing unreadable.
pub proof fn law_every_row_is_a_container(project: Text, rows: Seq<JsonView>, i: int)
    requires
        0 <= i < rows.len(),
    ensures
        containers_of(project, rows) matches Some(list) ==> {
            &&& list.len() == rows.len()
            &&& list[i].project == project
            &&& member_text(rows[i], "Service"@) == Some(list[i].service)
            &&& member_text(rows[i], "State"@) == Some(list[i].state)
        },
        member_text(rows[i], "Service"@) is None || member_text(rows[i], "State"@) is None
            ==> containers_of(project, rows) is None,
{
    lemma_containers_of(project, rows);
    if let Some(list) = containers_of(project, rows) {
        assert(container_of(project, rows[i]) == Some(list[i]));
    }
}

proof fn lemma_all_containers(found: Seq<Option<Seq<ContainerView>>>, container: ContainerView)
    ensures
        all_containers(found).contains(container) <==> exists|p: int|
            0 <= p < found.len() && (#[trigger] found[p]) is Some && found[p]->0.contains(container),
    decreases found.len(),
{
    if found.len() > 0 {
        let shorter = found.drop_last();
        lemma_all_containers(shorter, container);
        let all = all_containers(found);
        let before = all_containers(shorter);
        if all.contains(container) {
            let k = choose|k: int| 0 <= k < all.len() && all[k] == container;
            if k < before.len() {
                assert(before[k] == container);
                let p = choose|p: int|
                    0 <= p < shorter.len() && (#[trigger] shorter[p]) is Some
                        && shorter[p]->0.contains(container);
                assert(found[p] == shorter[p]);
            } else {
                let last = found[found.len() - 1];
                assert(last->0[k - before.len()] == container);
            }
        }
        if exists|p: int|
            0 <= p < found.len() && (#[trigger] found[p]) is Some && found[p]->0.contains(
                container,
            ) {
            let p = choose|p: int|
                0 <= p < found.len() && (#[trigger] found[p]) is Some && found[p]->0.contains(
                    container,
                );
            if p < shorter.len() {
                assert(shorter[p] == found[p]);
                let k = choose|k: int| 0 <= k < before.len() && before[k] == container;
                assert(all[k] == container);
            } else {
                let k = choose|k: int| 0 <= k < found[p]->0.len() && found[p]->0[k] == container;
                assert(all[before.len() + k] == container);
            }
        }
    }
}

/// The snapshot holds the containers of all projects that could be listed, and no others.
pub proof fn law_containers_of_all_projects_are_held(
    readings: Readings,
    snapshot: Snapshot,
    found: Seq<Option<Seq<ContainerView>>>,
    container: ContainerView,
)
    requires
        is_snapshot(readings, snapshot),
        readings.projects.deep_view() == Some(found),
    ensures
        snapshot.containers.deep_view().contains(container) <==> exists|p: int|
            0 <= p < found.len() && (#[trigger] found[p]) is Some && found[p]->0.contains(container),
{
    lemma_all_containers(found, container);
}

/// What is amiss with the containers is told of the last project with which something is: that it
/// has none, or that they could not be listed.
pub proof fn law_the_last_message_is_told(found: Seq<Option<Seq<ContainerView>>>, p: int)
    requires
        0 <= p < found.len(),
        forall|q: int|
            p < q < found.len() ==> (#[trigger] found[q]) is Some && found[q]->0.len() > 0,
    ensures
        found[p] is None ==> last_message(found) == Some("Containers unavailable"@),
        found[p] is Some && found[p]->0.len() == 0 ==> last_message(found) == Some(
            "No containers for a configured project"@,
        ),
    decreases found.len(),
{
    if p < found.len() - 1 {
        let shorter = found.drop_last();
        assert(found[found.len() - 1] is Some);
        assert forall|q: int| p < q < shorter.len() implies (#[trigger] shorter[q]) is Some
            && shorter[q]->0.len() > 0 by {
            assert(shorter[q] == found[q]);
        }
        law_the_last_message_is_told(shorter, p);
    }
}

proof fn lemma_devices(lines: Seq<Text>, device: Text)
    ensures
        devices_of(lines).contains(device) <==> exists|i: int|
            0 <= i < lines.len() && (mount_line(#[trigger] lines[i]) matches Some((other, _))
                && other == device),
    decreases lines.len(),
{
    if lines.len() > 0 {
        let shorter = lines.drop_last();
        lemma_devices(shorter, device);
        let all = devices_of(lines);
        let before = devices_of(shorter);
        let last = lines[lines.len() - 1];
        if all.contains(device) {
            let k = choose|k: int| 0 <= k < all.len() && all[k] == device;
            if k < before.len() {
                assert(before[k] == device);
                let i = choose|i: int|
                    0 <= i < shorter.len() && (mount_line(#[trigger] shorter[i]) matches Some(
                        (other, _),
                    ) && other == device);
                assert(lines[i] == shorter[i]);
            } else {
                assert(mount_line(last) matches Some((other, _)) && other == device);
            }
        }
        if exists|i: int|
            0 <= i < lines.len() && (mount_line(#[trigger] lines[i]) matches Some((other, _))
                && other == device) {
            let i = choose|i: int|
                0 <= i < lines.len() && (mount_line(#[trigger] lines[i]) matches Some((other, _))
                    && other == device);
            if i < shorter.len() {
                assert(shorter[i] == lines[i]);
                let k = choose|k: int| 0 <= k < before.len() && before[k] == device;
                assert(all[k] == device);
            } else {
                assert(all[all.len() - 1] == device);
            }
        }
    }
}

/// One more line gives one more filesystem exactly where it is on a disk and no line before it is of
/// the same device; those before it stay.
pub proof fn law_every_device_is_taken_once(lines: Seq<Text>, line: Text)
    ensures
        mounts_of(Seq::empty()).len() == 0,
        match mount_line(line) {
            Some((device, mount)) => if exists|i: int|
                0 <= i < lines.len() && (mount_line(#[trigger] lines[i]) matches Some((other, _))
                    && other == device) {
                mounts_of(lines.push(line)) == mounts_of(lines)
            } else {
                mounts_of(lines.push(line)) == mounts_of(lines).push(unescaped(mount))
            },
            None => mounts_of(lines.push(line)) == mounts_of(lines),
        },
{
    assert(lines.push(line).drop_last() =~= lines);
    if let Some((device, mount)) = mount_line(line) {
        lemma_devices(lines, device);
    }
}

/// A snapshot is of version 1 and of the time of its readings, and keeps their thresholds and
/// services. The processor, the load and Docker are normal where they could be read, and unknown
/// with a message of their own where not.
pub proof fn law_snapshots_show_their_readings(readings: Readings, snapshot: Snapshot)
    requires
        is_snapshot(readings, snapshot),
    ensures
        snapshot.version == 1,
        snapshot.collected_at_unix == readings.collected_at_unix,
        snapshot.thresholds == readings.thresholds,
        snapshot.services == readings.services,
        readings.cpu.deep_view() matches Some(text) ==> snapshot.cpu.value.deep_view() == Some(text)
            && snapshot.cpu.status == Level::Normal,
        readings.cpu.deep_view() is None ==> snapshot.cpu.status == Level::Unknown
            && snapshot.cpu.value is None && snapshot.cpu.message.deep_view() == Some(
            "CPU unavailable"@,
        ),
        readings.load.deep_view() matches Some(text) ==> snapshot.load.value.deep_view() == Some(
            text,
        ) && snapshot.load.status == Level::Normal,
        readings.load.deep_view() is None ==> snapshot.load.status == Level::Unknown
            && snapshot.load.value is None && snapshot.load.message.deep_view() == Some(
            "Load unavailable"@,
        ),
        readings.docker.deep_view() is None ==> snapshot.docker.status == Level::Unknown
            && snapshot.docker.value is None && snapshot.docker.message.deep_view() == Some(
            "Docker unavailable"@,
        ),
{
}

/// Memory warns exactly above the percentage that is set for it, and never does worse; it is unknown
/// where it could not be read.
pub proof fn law_memory_warns_above_its_percentage(
    readings: Readings,
    snapshot: Snapshot,
    text: Text,
    used: nat,
    total: nat,
)
    requires
        is_snapshot(readings, snapshot),
    ensures
        readings.memory.deep_view() == Some(text) && memory_of(text) == Some((used, total)) ==> {
            &&& snapshot.memory.value matches Some(memory) && memory.used_bytes == used
                && memory.total_bytes == total
            &&& snapshot.memory.status == Level::Warning <==> 100 * used
                > readings.thresholds.mem_pressure_percent * total
            &&& snapshot.memory.status == Level::Normal <==> 100 * used
                <= readings.thresholds.mem_pressure_percent * total
        },
        readings.memory.deep_view() is None ==> snapshot.memory.status == Level::Unknown
            && snapshot.memory.value is None && snapshot.memory.message.deep_view() == Some(
            "Memory unavailable"@,
        ),
{
}

/// A disk is critical exactly above the percentage that is set for that, warns exactly above the
/// other up to it, and is unknown where it is of no size or could not be read.
pub proof fn law_disks_follow_their_percentages(
    readings: Readings,
    snapshot: Snapshot,
    i: int,
    used: u64,
    total: u64,
)
    requires
        is_snapshot(readings, snapshot),
        0 <= i < readings.disks@.len(),
    ensures
        snapshot.disks@.len() == readings.disks@.len(),
        readings.disks@[i].usage == Some((used, total)) ==> {
            &&& snapshot.disks@[i].value matches Some(disk) && disk.mount@
                == readings.disks@[i].mount@ && disk.used_bytes == used && disk.total_bytes == total
            &&& total == 0 <==> snapshot.disks@[i].status == Level::Unknown
            &&& total > 0 ==> (snapshot.disks@[i].status == Level::Critical <==> 100 * used
                > readings.thresholds.disk_crit_percent * total)
            &&& total > 0 ==> (snapshot.disks@[i].status == Level::Warning <==> 100 * used
                <= readings.thresholds.disk_crit_percent * total && 100 * used
                > readings.thresholds.disk_warn_percent * total)
        },
        readings.disks@[i].usage is None ==> snapshot.disks@[i].status == Level::Unknown
            && snapshot.disks@[i].value is None && snapshot.disks@[i].message.deep_view() == Some(
            "Disk unavailable"@,
        ),
{
    assert(is_disk(
        readings.disks@[i].mount@,
        readings.disks@[i].usage,
        readings.thresholds,
        snapshot.disks@[i],
    ));
}

/// However many counters the first line has, from four on: the fourth and the fifth are idle time,
/// where there is a fifth, and the whole is the sum of all of them.
pub proof fn law_all_counters_are_counted(
    text: Text,
    words: Seq<Text>,
    counters: Seq<nat>,
    more: nat,
)
    requires
        lines_of(text).len() > 0,
        words_of(lines_of(text)[0]) == seq!["cpu"@] + words,
        words.len() == counters.len(),
        counters.len() >= 4,
        forall|i: int|
            0 <= i < words.len() ==> number_up_to(#[trigger] words[i], u64::MAX as nat) == Some(
                counters[i],
            ),
    ensures
        cpu_times(text) matches Some((idle, total)) ==> total == sum(counters) && idle == (if
            counters.len() > 4 {
            counters[3] + counters[4]
        } else {
            counters[3]
        }),
        sum(counters) <= u64::MAX && counters[3] + (if counters.len() > 4 {
            counters[4]
        } else {
            0
        }) <= u64::MAX ==> cpu_times(text) is Some,
        sum(Seq::empty()) == 0,
        sum(counters.push(more)) == sum(counters) + more,
{
    let fields = words_of(lines_of(text)[0]);
    assert(fields[0] == "cpu"@);
    assert(fields.skip(1) =~= words);
    lemma_numbers_of(words, counters);
    assert(counters.push(more).drop_last() =~= counters);
}

/// Memory is known wherever both its size and what is available of it are, and make sense.
pub proof fn law_sensible_memory_is_known(text: Text, total: nat, available: nat)
    ensures
        memory_lines(lines_of(text)) == Some((Some(total), Some(available))) && 0 < total
            && available <= total ==> memory_of(text) == Some(((total - available) as nat, total)),
        memory_lines(lines_of(text)) == Some((Some(total), Some(available))) && (total == 0
            || available > total) ==> memory_of(text) is None,
{
}

} // verus!
