//! The block of host facts that is printed beside the logo.

use vstd::prelude::*;

use crate::cpuinfo::Cpuinfo;
use crate::distro::Distro;
use crate::meminfo::Meminfo;
use crate::number::{signed_decimal, signed_decimal_string};
use crate::os_release::OsRelease;
use crate::packages::{describe_packages, packages_text};
use crate::passwd::Passwd;
use crate::size::{format_size, human_size};
use crate::style::{accent, accented};

verus! {

/// Quotient of `a` by a positive `b`, rounded towards zero.
pub open spec fn quotient(a: int, b: int) -> int
    recommends
        b > 0,
{
    if a >= 0 {
        a / b
    } else {
        -((-a) / b)
    }
}

/// What is left of `a` after `quotient(a, b)` times `b`; it has the sign of
/// `a`.
pub open spec fn remainder(a: int, b: int) -> int
    recommends
        b > 0,
{
    if a >= 0 {
        a % b
    } else {
        -((-a) % b)
    }
}

/// Whole days in a number of seconds.
pub open spec fn whole_days(seconds: int) -> int {
    quotient(seconds, 86400)
}

/// Whole hours beyond the whole days.
pub open spec fn whole_hours(seconds: int) -> int {
    quotient(remainder(seconds, 86400), 3600)
}

/// Whole minutes beyond the whole hours.
pub open spec fn whole_minutes(seconds: int) -> int {
    quotient(remainder(remainder(seconds, 86400), 3600), 60)
}

/// A count with its unit, or nothing at all when the count is zero.
pub open spec fn counted(n: int, unit: Seq<char>) -> Seq<char> {
    if n == 0 {
        Seq::empty()
    } else {
        signed_decimal(n) + unit
    }
}

/// An uptime in words: days and hours are left out when they are zero, the
/// minutes are always there, and seconds are not shown.
pub open spec fn uptime_text(seconds: int) -> Seq<char> {
    counted(whole_days(seconds), " days, "@) + counted(whole_hours(seconds), " hours, "@)
        + signed_decimal(whole_minutes(seconds)) + " mins"@
}

/// Writes an uptime, given in seconds, in days, hours and minutes.
pub fn format_time(seconds: i64) -> (out: String)
    ensures
        out@ == uptime_text(seconds as int),
{
    let days: i64 = seconds / 86400;
    let hours: i64 = (seconds % 86400) / 3600;
    let minutes: i64 = (seconds % 86400 % 3600) / 60;
    let mut out = String::new();
    if days != 0 {
        let count = signed_decimal_string(days);
        out.append(count.as_str());
        out.append(" days, ");
    }
    if hours != 0 {
        let count = signed_decimal_string(hours);
        out.append(count.as_str());
        out.append(" hours, ");
    }
    let count = signed_decimal_string(minutes);
    out.append(count.as_str());
    out.append(" mins");
    out
}

/// What the operating system says of the machine and of who runs the
/// program.
pub struct Host {
    /// The name of the user.
    pub user: String,
    /// The name of the machine on its network.
    pub nodename: String,
    /// The architecture that the program was built for.
    pub arch: String,
    /// The release of the kernel.
    pub release: String,
    /// The time since the machine was started, in seconds.
    pub uptime: i64,
}

/// The name to show for the user: the one from the environment where there
/// is one, else the one from the account database, else `unknown`.
pub open spec fn user_name(from_environment: Option<String>, account: Option<Passwd>) -> Seq<char> {
    match from_environment {
        Some(name) => name@,
        None => match account {
            Some(entry) => entry.name@,
            None => "unknown"@,
        },
    }
}

/// The memory in use and the memory there is, when both are known: what is
/// in use is all that is not free.
pub open spec fn memory_use(counters: Map<Seq<char>, u64>) -> Option<(u64, u64)> {
    if counters.contains_key("MemTotal"@) && counters.contains_key("MemFree"@)
        && counters["MemFree"@] <= counters["MemTotal"@] {
        Some(((counters["MemTotal"@] - counters["MemFree"@]) as u64, counters["MemTotal"@]))
    } else {
        None
    }
}

/// Two sizes as the report shows them: what is in use, then what there is.
pub open spec fn usage_text(used: Seq<char>, total: Seq<char>) -> Seq<char> {
    used + " / "@ + total
}

/// What the report says of the memory; `unknown` when the counters do not
/// tell.
pub open spec fn memory_text(counters: Map<Seq<char>, u64>) -> Seq<char> {
    match memory_use(counters) {
        Some((used, total)) => usage_text(human_size(used), human_size(total)),
        None => "unknown"@,
    }
}

/// What the report says of the operating system: its `PRETTY_NAME`, or
/// `unknown` where it has none.
pub open spec fn os_text(os_release: Map<Seq<char>, Seq<char>>) -> Seq<char> {
    if os_release.contains_key("PRETTY_NAME"@) {
        os_release["PRETTY_NAME"@]
    } else {
        "unknown"@
    }
}

/// What the report says of the processor: the model name of the first one,
/// or `unknown` where there is no processor or it has no model name.
pub open spec fn cpu_text(cpus: Seq<Map<Seq<char>, Seq<char>>>) -> Seq<char> {
    if cpus.len() > 0 && cpus[0].contains_key("model name"@) {
        cpus[0]["model name"@]
    } else {
        "unknown"@
    }
}

/// The first line of the report: user and machine, both highlighted.
pub open spec fn heading(user: Seq<char>, nodename: Seq<char>) -> Seq<char> {
    accented(user) + "@"@ + accented(nodename) + "\n"@
}

/// A line of the report: a label that has already been highlighted, then
/// the value.
pub open spec fn labelled(label: Seq<char>, value: Seq<char>) -> Seq<char> {
    label + ": "@ + value + "\n"@
}

/// A line of the report, with its label highlighted.
pub open spec fn field(label: Seq<char>, value: Seq<char>) -> Seq<char> {
    labelled(accented(label), value)
}

/// The line on packages, or nothing where there is nothing to say.
pub open spec fn packages_field(distro: Distro, counts: Seq<Option<usize>>) -> Seq<char> {
    match packages_text(distro, counts) {
        Some(text) => field("Packages"@, text),
        None => Seq::empty(),
    }
}

/// The whole report: a heading, a rule, and one line for each fact.
pub open spec fn info_text(
    distro: Distro,
    os_release: Map<Seq<char>, Seq<char>>,
    host: Host,
    counters: Map<Seq<char>, u64>,
    cpus: Seq<Map<Seq<char>, Seq<char>>>,
    counts: Seq<Option<usize>>,
) -> Seq<char> {
    heading(host.user@, host.nodename@) + "--------------\n"@ + field("OS"@, os_text(os_release))
        + field("Arch"@, host.arch@) + field("Kernel"@, host.release@) + field(
        "Uptime"@,
        uptime_text(host.uptime as int),
    ) + packages_field(distro, counts) + field("Memory"@, memory_text(counters)) + field(
        "CPU"@,
        cpu_text(cpus),
    )
}

/// The name to show for the user.
pub fn get_user(from_environment: Option<String>, account: Option<Passwd>) -> (name: String)
    ensures
        name@ == user_name(from_environment, account),
{
    match from_environment {
        Some(name) => name,
        None => match account {
            Some(entry) => entry.name,
            None => String::from_str("unknown"),
        },
    }
}

/// The memory in use and the memory there is.
pub fn used_and_total(meminfo: &Meminfo) -> (r: Option<(u64, u64)>)
    ensures
        r == memory_use(meminfo@),
{
    match (meminfo.mem_total(), meminfo.mem_free()) {
        (Some(total), Some(free)) => if free <= total {
            Some((total - free, total))
        } else {
            None
        },
        _ => None,
    }
}

/// Sets two sizes, already written out, side by side.
pub fn write_usage(used: &str, total: &str) -> (out: String)
    ensures
        out@ == usage_text(used@, total@),
{
    let mut out = String::from_str(used);
    out.append(" / ");
    out.append(total);
    out
}

/// What the report says of the memory.
pub fn describe_memory(meminfo: &Meminfo) -> (out: String)
    ensures
        out@ == memory_text(meminfo@),
{
    match used_and_total(meminfo) {
        Some((used, total)) => {
            let used = format_size(used);
            let total = format_size(total);
            write_usage(used.as_str(), total.as_str())
        },
        None => String::from_str("unknown"),
    }
}

/// Adds a line to a report: a label that has already been highlighted,
/// then the value.
pub fn write_labelled(report: &mut String, label: &str, value: &str)
    ensures
        final(report)@ == old(report)@ + labelled(label@, value@),
{
    report.append(label);
    report.append(": ");
    report.append(value);
    report.append("\n");
}

/// Adds a line to a report, with its label highlighted.
pub fn write_field(report: &mut String, label: &str, value: &str)
    ensures
        final(report)@ == old(report)@ + field(label@, value@),
{
    let label = accent(label);
    write_labelled(report, label.as_str(), value);
}

/// Writes the report on a machine: who runs what where, and on how much
/// machine. `counts` holds what the package queries of `distro` gave, in
/// their order.
pub fn get_info_string(
    distro: &Distro,
    os_release: &OsRelease,
    host: &Host,
    meminfo: &Meminfo,
    cpuinfo: &Cpuinfo,
    counts: &Vec<Option<usize>>,
) -> (out: String)
    ensures
        out@ == info_text(*distro, os_release@, *host, meminfo@, cpuinfo@, counts@),
{
    let mut out = accent(host.user.as_str());
    let nodename = accent(host.nodename.as_str());
    out.append("@");
    out.append(nodename.as_str());
    out.append("\n");
    out.append("--------------\n");
    let os = match os_release.pretty_name() {
        Some(name) => name,
        None => "unknown",
    };
    write_field(&mut out, "OS", os);
    write_field(&mut out, "Arch", host.arch.as_str());
    write_field(&mut out, "Kernel", host.release.as_str());
    let uptime = format_time(host.uptime);
    write_field(&mut out, "Uptime", uptime.as_str());
    match describe_packages(distro, counts) {
        Some(packages) => {
            write_field(&mut out, "Packages", packages.as_str());
        },
        None => {},
    }
    let memory = describe_memory(meminfo);
    write_field(&mut out, "Memory", memory.as_str());
    let cpu = match cpuinfo.first_model_name() {
        Some(model) => model,
        None => "unknown",
    };
    write_field(&mut out, "CPU", cpu);
    out
}

} // verus!
