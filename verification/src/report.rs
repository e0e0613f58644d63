//! The status report, the answer to an empty request.
//!
//! The report opens with a banner and goes on with the sections that the
//! settings switch on, always in the same order: users, uptime, kernel,
//! temperatures. What the sections show is read from the host beforehand
//! and handed over as a [`Status`].

use crate::config::{Config, ConfigView};
use crate::sensors::{cpu_info, cpu_section, sensor_views, Sensor, SensorView};
use crate::text::{
    decimal, gathered, lemma_gathered_nothing, lemma_gathered_split, lemma_gathered_step,
    push_decimal, push_repeated, push_two_digits, repeated, two_digits,
};
use crate::time::{Clock, Time};
use vstd::prelude::*;
use vstd::utf8::encode_utf8;

verus! {

/// An entry of the directory that holds the users.
#[derive(Debug)]
pub struct UserEntry {
    /// The entry's name.
    pub name: String,
    /// Whether the entry holds a plan.
    pub has_plan: bool,
}

/// The mathematical content of a [`UserEntry`].
pub struct UserEntryView {
    pub name: Seq<char>,
    pub has_plan: bool,
}

impl View for UserEntry {
    type V = UserEntryView;

    open spec fn view(&self) -> UserEntryView {
        UserEntryView { name: self.name@, has_plan: self.has_plan }
    }
}

/// The load averages over one, five and fifteen minutes, as printed.
#[derive(Debug)]
pub struct LoadAverage {
    pub one: String,
    pub five: String,
    pub fifteen: String,
}

/// The mathematical content of a [`LoadAverage`].
pub struct LoadAverageView {
    pub one: Seq<char>,
    pub five: Seq<char>,
    pub fifteen: Seq<char>,
}

impl View for LoadAverage {
    type V = LoadAverageView;

    open spec fn view(&self) -> LoadAverageView {
        LoadAverageView { one: self.one@, five: self.five@, fifteen: self.fifteen@ }
    }
}

/// What the uptime section shows.
#[derive(Debug)]
pub struct Activity {
    /// The time of day.
    pub clock: Clock,
    /// How long the host has been up.
    pub uptime: Time,
    /// The number of user sessions.
    pub sessions: usize,
    /// The load averages.
    pub load: LoadAverage,
}

/// The mathematical content of an [`Activity`].
pub struct ActivityView {
    pub clock: Clock,
    pub days: nat,
    pub hours: nat,
    pub minutes: nat,
    pub sessions: nat,
    pub load: LoadAverageView,
}

impl View for Activity {
    type V = ActivityView;

    open spec fn view(&self) -> ActivityView {
        ActivityView {
            clock: self.clock,
            days: self.uptime@.days,
            hours: self.uptime@.hours,
            minutes: self.uptime@.minutes,
            sessions: self.sessions as nat,
            load: self.load@,
        }
    }
}

/// What the kernel section shows; each part may be unknown.
#[derive(Debug)]
pub struct Kernel {
    /// The system's name.
    pub name: Option<String>,
    /// The version of the kernel.
    pub kernel_version: Option<String>,
    /// The version of the operating system.
    pub os_version: Option<String>,
}

/// The mathematical content of a [`Kernel`].
pub struct KernelView {
    pub name: Option<Seq<char>>,
    pub kernel_version: Option<Seq<char>>,
    pub os_version: Option<Seq<char>>,
}

/// The text of an optional text.
pub open spec fn text_view(text: Option<String>) -> Option<Seq<char>> {
    match text {
        Some(t) => Some(t@),
        None => None,
    }
}

impl View for Kernel {
    type V = KernelView;

    open spec fn view(&self) -> KernelView {
        KernelView {
            name: text_view(self.name),
            kernel_version: text_view(self.kernel_version),
            os_version: text_view(self.os_version),
        }
    }
}

/// Everything that the report shows of the host.
#[derive(Debug)]
pub struct Status {
    /// The entries of the directory that holds the users.
    pub users: Vec<UserEntry>,
    /// The time, the uptime, the sessions and the load.
    pub activity: Activity,
    /// The system's name and versions.
    pub kernel: Kernel,
    /// The temperature sensors.
    pub sensors: Vec<Sensor>,
}

/// The mathematical content of a [`Status`].
pub struct StatusView {
    pub users: Seq<UserEntryView>,
    pub activity: ActivityView,
    pub kernel: KernelView,
    pub sensors: Seq<SensorView>,
}

/// The views of a list of entries, in order.
pub open spec fn entry_views(entries: Seq<UserEntry>) -> Seq<UserEntryView> {
    entries.map_values(|e: UserEntry| e@)
}

impl View for Status {
    type V = StatusView;

    open spec fn view(&self) -> StatusView {
        StatusView {
            users: entry_views(self.users@),
            activity: self.activity@,
            kernel: self.kernel@,
            sensors: sensor_views(self.sensors@),
        }
    }
}

/// The banner: the server's name, a line of `=` as long as the name has
/// bytes, and an empty line.
pub open spec fn banner_text(server: Seq<char>) -> Seq<char> {
    server + "\n"@ + repeated('=', encode_utf8(server).len()) + "\n\n"@
}

impl UserEntryView {
    /// A space and the name, for an entry that holds a plan; nothing for any
    /// other.
    pub open spec fn listed(self) -> Seq<char> {
        if self.has_plan {
            " "@ + self.name
        } else {
            Seq::empty()
        }
    }
}

/// The users section: the names of the entries that hold a plan, on one
/// line, and an empty line.
pub open spec fn users_section(entries: Seq<UserEntryView>) -> Seq<char> {
    "Users: "@ + gathered(entries, |e: UserEntryView| e.listed()) + "\n\n"@
}

/// The time of day, as `hh:mm:ss`.
pub open spec fn clock_text(clock: Clock) -> Seq<char> {
    two_digits(clock.hour as nat) + ":"@ + two_digits(clock.minute as nat) + ":"@ + two_digits(
        clock.second as nat,
    )
}

/// The uptime, as the days, the word `days`, and `hh:mm`.
pub open spec fn span_text(days: nat, hours: nat, minutes: nat) -> Seq<char> {
    decimal(days) + " days "@ + two_digits(hours) + ":"@ + two_digits(minutes)
}

/// The three load averages, with a space between them.
pub open spec fn load_text(load: LoadAverageView) -> Seq<char> {
    load.one + " "@ + load.five + " "@ + load.fifteen
}

/// The uptime section: a heading, then one line with the time of day, the
/// uptime, the sessions and the load, and an empty line.
pub open spec fn uptime_section(a: ActivityView) -> Seq<char> {
    "System Status\n-------------\n\n"@ + clock_text(a.clock) + " up "@ + span_text(
        a.days,
        a.hours,
        a.minutes,
    ) + ", "@ + decimal(a.sessions) + " users, load average "@ + load_text(a.load) + "\n\n"@
}

/// A known part of the kernel line, with the space behind it.
pub open spec fn kernel_part(part: Option<Seq<char>>) -> Seq<char> {
    match part {
        Some(text) => text + " "@,
        None => Seq::empty(),
    }
}

/// The kernel section: the known parts on one line, and an empty line.
pub open spec fn kernel_section(k: KernelView) -> Seq<char> {
    kernel_part(k.name) + kernel_part(k.kernel_version) + kernel_part(k.os_version) + "\n\n"@
}

/// `section` where `enabled`, else nothing.
pub open spec fn section_if(enabled: bool, section: Seq<char>) -> Seq<char> {
    if enabled {
        section
    } else {
        Seq::empty()
    }
}

/// The whole report: the banner, then the enabled sections in their order.
pub open spec fn report_text(config: ConfigView, status: StatusView) -> Seq<char> {
    banner_text(config.server) + section_if(config.stats.users, users_section(status.users))
        + section_if(config.stats.uptime, uptime_section(status.activity)) + section_if(
        config.stats.kernel,
        kernel_section(status.kernel),
    ) + section_if(config.stats.cpu, cpu_section(status.sensors))
}

/// What the users section holds before the name of its entry `i`.
pub open spec fn users_section_before(entries: Seq<UserEntryView>, i: int) -> Seq<char> {
    "Users: "@ + gathered(entries.take(i), |e: UserEntryView| e.listed())
}

/// What the users section holds behind the name of its entry `i`.
pub open spec fn users_section_after(entries: Seq<UserEntryView>, i: int) -> Seq<char> {
    gathered(entries.skip(i + 1), |e: UserEntryView| e.listed()) + "\n\n"@
}

/// An entry that holds a plan is on the users line: a space and its name
/// stand in the section, behind what the entries before it give and before
/// what the entries after it give.
pub proof fn lemma_user_with_plan_is_listed(entries: Seq<UserEntryView>, i: int)
    requires
        0 <= i < entries.len(),
        entries[i].has_plan,
    ensures
        users_section(entries) == users_section_before(entries, i) + (" "@ + entries[i].name)
            + users_section_after(entries, i),
{
    let piece = |e: UserEntryView| e.listed();
    let before = entries.take(i);
    let one = seq![entries[i]];
    let after = entries.skip(i + 1);
    assert(entries =~= (before + one) + after);
    lemma_gathered_split(before + one, after, piece);
    lemma_gathered_split(before, one, piece);
    assert(gathered(one, piece) =~= piece(entries[i])) by {
        assert(one.drop_last().len() == 0);
        assert(gathered(one.drop_last(), piece) =~= Seq::<char>::empty());
        assert(one.last() == entries[i]);
    }
    assert(users_section(entries) =~= users_section_before(entries, i) + (" "@
        + entries[i].name) + users_section_after(entries, i));
}

/// Where no entry holds a plan, the users line lists none.
pub proof fn lemma_no_plan_lists_none(entries: Seq<UserEntryView>)
    requires
        forall|i: int| 0 <= i < entries.len() ==> !(#[trigger] entries[i]).has_plan,
    ensures
        users_section(entries) == "Users: "@ + "\n\n"@,
{
    let piece = |e: UserEntryView| e.listed();
    assert forall|i: int| 0 <= i < entries.len() implies piece(#[trigger] entries[i]).len()
        == 0 by {
        assert(!entries[i].has_plan);
    }
    lemma_gathered_nothing(entries, piece);
    assert(gathered(entries, piece) =~= Seq::<char>::empty());
    assert(users_section(entries) =~= "Users: "@ + "\n\n"@);
}

/// A section that is off leaves no trace: two hosts that differ only in
/// what such sections would show get the same report.
pub proof fn lemma_report_skips_what_is_off(config: ConfigView, a: StatusView, b: StatusView)
    requires
        config.stats.users ==> a.users == b.users,
        config.stats.uptime ==> a.activity == b.activity,
        config.stats.kernel ==> a.kernel == b.kernel,
        config.stats.cpu ==> a.sensors == b.sensors,
    ensures
        report_text(config, a) == report_text(config, b),
{
}

/// With every section off, the report is the banner.
pub proof fn lemma_report_without_sections(config: ConfigView, status: StatusView)
    requires
        !config.stats.users && !config.stats.uptime && !config.stats.kernel && !config.stats.cpu,
    ensures
        report_text(config, status) =~= banner_text(config.server),
{
}

/// The banner of the server called `server`.
pub fn banner(server: &str) -> (text: String)
    ensures
        text@ == banner_text(server@),
{
    let mut text = String::from_str(server);
    text.append("\n");
    let width = server.as_bytes().len();
    push_repeated(&mut text, '=', width);
    text.append("\n\n");
    text
}

/// Appends the users section for `entries` to the report `sysinfo`.
pub fn user_info(sysinfo: String, entries: &Vec<UserEntry>) -> (report: String)
    ensures
        report@ == sysinfo@ + users_section(entry_views(entries@)),
{
    let mut out = sysinfo;
    out.append("Users: ");
    let ghost views = entry_views(entries@);
    let ghost piece = |e: UserEntryView| e.listed();
    let ghost start = out@;
    let mut i: usize = 0;
    assert(out@ =~= start + gathered(views.take(0), piece));
    while i < entries.len()
        invariant
            i <= entries.len(),
            views == entry_views(entries@),
            piece == (|e: UserEntryView| e.listed()),
            out@ == start + gathered(views.take(i as int), piece),
        decreases entries.len() - i,
    {
        if entries[i].has_plan {
            out.append(" ");
            out.append(entries[i].name.as_str());
        }
        proof {
            lemma_gathered_step(views, piece, i as int);
            assert(out@ =~= start + gathered(views.take(i + 1), piece));
        }
        i += 1;
    }
    assert(views.take(entries.len() as int) =~= views);
    out.append("\n\n");
    assert(out@ =~= sysinfo@ + users_section(views));
    out
}

/// Appends the time of day.
fn push_clock(out: &mut String, clock: &Clock)
    ensures
        final(out)@ == old(out)@ + clock_text(*clock),
{
    push_two_digits(out, clock.hour as u64);
    out.append(":");
    push_two_digits(out, clock.minute as u64);
    out.append(":");
    push_two_digits(out, clock.second as u64);
    assert(out@ =~= old(out)@ + clock_text(*clock));
}

/// Appends the uptime.
fn push_span(out: &mut String, uptime: &Time)
    ensures
        final(out)@ == old(out)@ + span_text(uptime@.days, uptime@.hours, uptime@.minutes),
{
    push_decimal(out, uptime.days());
    out.append(" days ");
    push_two_digits(out, uptime.hours());
    out.append(":");
    push_two_digits(out, uptime.minutes());
    assert(out@ =~= old(out)@ + span_text(uptime@.days, uptime@.hours, uptime@.minutes));
}

/// Appends the load averages.
fn push_load(out: &mut String, load: &LoadAverage)
    ensures
        final(out)@ == old(out)@ + load_text(load@),
{
    out.append(load.one.as_str());
    out.append(" ");
    out.append(load.five.as_str());
    out.append(" ");
    out.append(load.fifteen.as_str());
    assert(out@ =~= old(out)@ + load_text(load@));
}

/// Appends the uptime section for `activity` to the report `sysinfo`.
pub fn uptime_info(sysinfo: String, activity: &Activity) -> (report: String)
    ensures
        report@ == sysinfo@ + uptime_section(activity@),
{
    let mut out = sysinfo;
    out.append("System Status\n-------------\n\n");
    push_clock(&mut out, &activity.clock);
    out.append(" up ");
    push_span(&mut out, &activity.uptime);
    out.append(", ");
    push_decimal(&mut out, activity.sessions as u64);
    out.append(" users, load average ");
    push_load(&mut out, &activity.load);
    out.append("\n\n");
    assert(out@ =~= sysinfo@ + uptime_section(activity@));
    out
}

/// Appends a known part of the kernel line and the space behind it.
fn push_kernel_part(out: &mut String, part: &Option<String>)
    ensures
        final(out)@ == old(out)@ + kernel_part(text_view(*part)),
{
    match part {
        Some(text) => {
            out.append(text.as_str());
            out.append(" ");
            assert(out@ =~= old(out)@ + kernel_part(text_view(*part)));
        },
        None => {
            assert(out@ =~= old(out)@ + kernel_part(text_view(*part)));
        },
    }
}

/// Appends the kernel section for `kernel` to the report `sysinfo`.
pub fn kernel_info(sysinfo: String, kernel: &Kernel) -> (report: String)
    ensures
        report@ == sysinfo@ + kernel_section(kernel@),
{
    let mut out = sysinfo;
    push_kernel_part(&mut out, &kernel.name);
    push_kernel_part(&mut out, &kernel.kernel_version);
    push_kernel_part(&mut out, &kernel.os_version);
    out.append("\n\n");
    assert(out@ =~= sysinfo@ + kernel_section(kernel@));
    out
}

/// The status report of the server with the settings `config`, on a host
/// in the state `status`.
pub fn server_info(config: &Config, status: &Status) -> (report: String)
    ensures
        report@ == report_text(config@, status@),
{
    let mut sysinfo = banner(config.server.as_str());
    let ghost b = sysinfo@;
    if config.stats.users {
        sysinfo = user_info(sysinfo, &status.users);
    }
    let ghost u = sysinfo@;
    assert(u =~= b + section_if(config.stats.users, users_section(status@.users)));
    if config.stats.uptime {
        sysinfo = uptime_info(sysinfo, &status.activity);
    }
    let ghost t = sysinfo@;
    assert(t =~= u + section_if(config.stats.uptime, uptime_section(status@.activity)));
    if config.stats.kernel {
        sysinfo = kernel_info(sysinfo, &status.kernel);
    }
    let ghost k = sysinfo@;
    assert(k =~= t + section_if(config.stats.kernel, kernel_section(status@.kernel)));
    if config.stats.cpu {
        sysinfo = cpu_info(sysinfo, &status.sensors);
    }
    assert(sysinfo@ =~= k + section_if(config.stats.cpu, cpu_section(status@.sensors)));
    sysinfo
}

} // verus!
