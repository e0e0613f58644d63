//! The temperature section of the status report.
//!
//! A sensor reading arrives as text: the label of the sensor and its
//! temperatures as they are to be printed. The label tells what a sensor
//! measures, and each sensor has at most one line:
//!
//! - a sensor of one core, labelled `coretemp Core N`, `cpu_thermal tempN`
//!   or `Core N`;
//! - a sensor of a whole package, whose label holds `Package`;
//! - a sensor of the processor at large, labelled `CPU..`.
//!
//! The section first lists the package sensors and the per-core sensors of
//! the two drivers, under labels without the driver's name, then the
//! sensors labelled `Core..`. The sensors labelled `CPU..` are listed only
//! where there is no sensor of a core at all.

use crate::text::{
    contains, gathered, lemma_gathered_split, lemma_gathered_step, occurs_in, replace_all,
    replaced, starts_with,
};
use vstd::prelude::*;

verus! {

/// One temperature sensor, as read from the host.
#[derive(Debug)]
pub struct Sensor {
    /// The sensor's label.
    pub label: String,
    /// The current temperature, as printed.
    pub temperature: String,
    /// The highest temperature seen, as printed.
    pub max: String,
    /// The critical temperature, as printed, where the sensor has one.
    pub critical: Option<String>,
}

/// The mathematical content of a [`Sensor`].
pub struct SensorView {
    pub label: Seq<char>,
    pub temperature: Seq<char>,
    pub max: Seq<char>,
    pub critical: Option<Seq<char>>,
}

impl View for Sensor {
    type V = SensorView;

    open spec fn view(&self) -> SensorView {
        SensorView {
            label: self.label@,
            temperature: self.temperature@,
            max: self.max@,
            critical: match self.critical {
                Some(c) => Some(c@),
                None => None,
            },
        }
    }
}

/// The views of a list of sensors, in order.
pub open spec fn sensor_views(sensors: Seq<Sensor>) -> Seq<SensorView> {
    sensors.map_values(|s: Sensor| s@)
}

/// What a sensor measures, as its label tells.
#[derive(Debug, Clone, Copy, PartialEq, Eq)]
pub enum SensorKind {
    /// One core, reported by the driver `coretemp`.
    CoretempCore,
    /// One core, reported by the driver `cpu_thermal`.
    ThermalCore,
    /// One core, reported under the plain label `Core..`.
    Core,
    /// A whole package.
    Package,
    /// The processor at large.
    Cpu,
    /// Anything else.
    Other,
}

impl SensorKind {
    /// Whether the sensor measures one core.
    pub open spec fn per_core(self) -> bool {
        self is CoretempCore || self is ThermalCore || self is Core
    }
}

/// What a sensor with the label `label` measures. A label is taken for the
/// first of the kinds that it fits.
pub open spec fn kind_of_label(label: Seq<char>) -> SensorKind {
    if "coretemp Core"@.is_prefix_of(label) {
        SensorKind::CoretempCore
    } else if "cpu_thermal temp"@.is_prefix_of(label) {
        SensorKind::ThermalCore
    } else if "Core"@.is_prefix_of(label) {
        SensorKind::Core
    } else if occurs_in("Package"@, label) {
        SensorKind::Package
    } else if "CPU"@.is_prefix_of(label) {
        SensorKind::Cpu
    } else {
        SensorKind::Other
    }
}

impl SensorView {
    /// What the sensor measures.
    pub open spec fn kind(self) -> SensorKind {
        kind_of_label(self.label)
    }

    /// The critical temperature; a sensor without one reports its maximum.
    pub open spec fn critical_or_max(self) -> Seq<char> {
        match self.critical {
            Some(c) => c,
            None => self.max,
        }
    }

    /// The three temperatures of a line, up to and including its newline.
    pub open spec fn reading(self) -> Seq<char> {
        "+"@ + self.temperature + "°C  (max = +"@ + self.max + "°C, critical = +"@
            + self.critical_or_max() + "°C)\n"@
    }

    /// The label without the name of the driver: `coretemp Core N` as
    /// `Core N`, `coretemp Package id N` as `Package id N`, and
    /// `cpu_thermal tempN` as `Core N`.
    pub open spec fn short_label(self) -> Seq<char> {
        if self.kind() is ThermalCore {
            replaced(self.label, "cpu_thermal temp"@, "Core "@)
        } else {
            replaced(self.label, "coretemp "@, ""@)
        }
    }

    /// The line of a package sensor or of a per-core sensor of one of the
    /// two drivers, under its short label; nothing for any other sensor.
    pub open spec fn driver_line(self) -> Seq<char> {
        match self.kind() {
            SensorKind::CoretempCore | SensorKind::ThermalCore | SensorKind::Package => {
                self.short_label() + ": "@ + self.reading()
            },
            _ => Seq::empty(),
        }
    }

    /// The line of a sensor of the kind `kind`, under its full label;
    /// nothing for any other sensor.
    pub open spec fn plain_line(self, kind: SensorKind) -> Seq<char> {
        if self.kind() == kind {
            self.label + ":       "@ + self.reading()
        } else {
            Seq::empty()
        }
    }
}

/// Whether one of the sensors measures one core.
pub open spec fn any_per_core(sensors: Seq<SensorView>) -> bool {
    exists|i: int| 0 <= i < sensors.len() && (#[trigger] sensors[i]).kind().per_core()
}

/// The lines of the package sensors and of the per-core sensors of the two
/// drivers, in the sensors' order.
pub open spec fn driver_lines(sensors: Seq<SensorView>) -> Seq<char> {
    gathered(sensors, |s: SensorView| s.driver_line())
}

/// The lines of the sensors of the kind `kind`, in the sensors' order.
pub open spec fn plain_lines(sensors: Seq<SensorView>, kind: SensorKind) -> Seq<char> {
    gathered(sensors, |s: SensorView| s.plain_line(kind))
}

/// The lines of the sensors labelled `Core..`; only where no sensor
/// measures one core, the lines of the sensors labelled `CPU..` instead.
pub open spec fn labelled_lines(sensors: Seq<SensorView>) -> Seq<char> {
    if any_per_core(sensors) {
        plain_lines(sensors, SensorKind::Core)
    } else {
        plain_lines(sensors, SensorKind::Cpu)
    }
}

/// The temperature section: the lines of the package sensors and of the
/// drivers' per-core sensors, then the lines of the sensors labelled
/// `Core..` or, where no sensor measures one core, `CPU..`.
pub open spec fn cpu_section(sensors: Seq<SensorView>) -> Seq<char> {
    driver_lines(sensors) + labelled_lines(sensors)
}

/// Every sensor has at most one line: one that has a driver line has no
/// plain line, and no sensor has the plain lines of two kinds.
pub proof fn lemma_one_line_for_a_sensor(sensor: SensorView, kind: SensorKind, other: SensorKind)
    requires
        kind is Core || kind is Cpu,
        other is Core || other is Cpu,
    ensures
        sensor.driver_line().len() > 0 ==> sensor.plain_line(kind).len() == 0,
        kind != other && sensor.plain_line(kind).len() > 0 ==> sensor.plain_line(other).len()
            == 0,
{
}

/// Where a sensor measures one core, the section holds no line of a sensor
/// labelled `CPU..`: it is the driver lines and the lines of the sensors
/// labelled `Core..`.
pub proof fn lemma_no_fallback_beside_cores(sensors: Seq<SensorView>, i: int)
    requires
        0 <= i < sensors.len(),
        sensors[i].kind().per_core(),
    ensures
        cpu_section(sensors) == driver_lines(sensors) + plain_lines(sensors, SensorKind::Core),
{
}

/// A package sensor has its line in the section, whatever else there is:
/// its short label, a colon and its temperatures, between the driver lines
/// of the sensors before it and those of the sensors after it.
pub proof fn lemma_package_is_listed(sensors: Seq<SensorView>, i: int)
    requires
        0 <= i < sensors.len(),
        sensors[i].kind() is Package,
    ensures
        cpu_section(sensors) == driver_lines(sensors.take(i)) + (sensors[i].short_label() + ": "@
            + sensors[i].reading()) + driver_lines(sensors.skip(i + 1)) + labelled_lines(
            sensors,
        ),
{
    let line = |s: SensorView| s.driver_line();
    let head = sensors.take(i + 1);
    let tail = sensors.skip(i + 1);
    assert(sensors =~= head + tail);
    lemma_gathered_split(head, tail, line);
    lemma_gathered_step(sensors, line, i);
    assert(cpu_section(sensors) =~= driver_lines(sensors.take(i)) + (sensors[i].short_label()
        + ": "@ + sensors[i].reading()) + driver_lines(tail) + labelled_lines(sensors));
}

/// A per-core sensor of one of the two drivers has its line in the
/// section in the same way.
pub proof fn lemma_driver_core_is_listed(sensors: Seq<SensorView>, i: int)
    requires
        0 <= i < sensors.len(),
        sensors[i].kind() is CoretempCore || sensors[i].kind() is ThermalCore,
    ensures
        cpu_section(sensors) == driver_lines(sensors.take(i)) + (sensors[i].short_label() + ": "@
            + sensors[i].reading()) + driver_lines(sensors.skip(i + 1)) + plain_lines(
            sensors,
            SensorKind::Core,
        ),
{
    let line = |s: SensorView| s.driver_line();
    let head = sensors.take(i + 1);
    let tail = sensors.skip(i + 1);
    assert(sensors =~= head + tail);
    lemma_gathered_split(head, tail, line);
    lemma_gathered_step(sensors, line, i);
    assert(sensors[i].kind().per_core());
    assert(cpu_section(sensors) =~= driver_lines(sensors.take(i)) + (sensors[i].short_label()
        + ": "@ + sensors[i].reading()) + driver_lines(tail) + plain_lines(
        sensors,
        SensorKind::Core,
    ));
}

/// What the sensor `sensor` measures.
pub fn kind_of(sensor: &Sensor) -> (kind: SensorKind)
    ensures
        kind == sensor@.kind(),
{
    let label = sensor.label.as_str();
    if starts_with(label, "coretemp Core") {
        SensorKind::CoretempCore
    } else if starts_with(label, "cpu_thermal temp") {
        SensorKind::ThermalCore
    } else if starts_with(label, "Core") {
        SensorKind::Core
    } else if contains(label, "Package") {
        SensorKind::Package
    } else if starts_with(label, "CPU") {
        SensorKind::Cpu
    } else {
        SensorKind::Other
    }
}

/// Whether one of the sensors measures one core.
pub fn has_per_core(sensors: &Vec<Sensor>) -> (b: bool)
    ensures
        b == any_per_core(sensor_views(sensors@)),
{
    let mut i: usize = 0;
    while i < sensors.len()
        invariant
            i <= sensors.len(),
            forall|k: int|
                0 <= k < i ==> !(#[trigger] sensor_views(sensors@)[k]).kind().per_core(),
        decreases sensors.len() - i,
    {
        match kind_of(&sensors[i]) {
            SensorKind::CoretempCore | SensorKind::ThermalCore | SensorKind::Core => {
                assert(sensor_views(sensors@)[i as int].kind().per_core());
                return true;
            },
            _ => {},
        }
        i += 1;
    }
    false
}

/// Appends the temperatures of `sensor` and a newline.
fn push_reading(out: &mut String, sensor: &Sensor)
    ensures
        final(out)@ == old(out)@ + sensor@.reading(),
{
    out.append("+");
    out.append(sensor.temperature.as_str());
    out.append("°C  (max = +");
    out.append(sensor.max.as_str());
    out.append("°C, critical = +");
    match &sensor.critical {
        Some(c) => out.append(c.as_str()),
        None => out.append(sensor.max.as_str()),
    }
    out.append("°C)\n");
    assert(out@ =~= old(out)@ + sensor@.reading());
}

/// Appends the driver line of `sensor`, if it has one.
fn push_driver_line(out: &mut String, sensor: &Sensor)
    ensures
        final(out)@ == old(out)@ + sensor@.driver_line(),
{
    let label = sensor.label.as_str();
    match kind_of(sensor) {
        SensorKind::CoretempCore | SensorKind::Package => {
            let short = replace_all(label, "coretemp ", "");
            out.append(short.as_str());
            out.append(": ");
            push_reading(out, sensor);
        },
        SensorKind::ThermalCore => {
            let short = replace_all(label, "cpu_thermal temp", "Core ");
            out.append(short.as_str());
            out.append(": ");
            push_reading(out, sensor);
        },
        _ => {},
    }
    assert(out@ =~= old(out)@ + sensor@.driver_line());
}

/// Appends the plain line of `sensor`, if it is of the kind `kind`.
fn push_plain_line(out: &mut String, sensor: &Sensor, kind: SensorKind)
    ensures
        final(out)@ == old(out)@ + sensor@.plain_line(kind),
{
    if same_kind(kind_of(sensor), kind) {
        out.append(sensor.label.as_str());
        out.append(":       ");
        push_reading(out, sensor);
    }
    assert(out@ =~= old(out)@ + sensor@.plain_line(kind));
}

/// Whether `a` and `b` are one kind.
fn same_kind(a: SensorKind, b: SensorKind) -> (same: bool)
    ensures
        same == (a == b),
{
    match (a, b) {
        (SensorKind::CoretempCore, SensorKind::CoretempCore) => true,
        (SensorKind::ThermalCore, SensorKind::ThermalCore) => true,
        (SensorKind::Core, SensorKind::Core) => true,
        (SensorKind::Package, SensorKind::Package) => true,
        (SensorKind::Cpu, SensorKind::Cpu) => true,
        (SensorKind::Other, SensorKind::Other) => true,
        _ => false,
    }
}

/// Appends the plain lines of the sensors of the kind `kind`.
fn push_plain_lines(out: &mut String, sensors: &Vec<Sensor>, kind: SensorKind)
    ensures
        final(out)@ == old(out)@ + plain_lines(sensor_views(sensors@), kind),
{
    let ghost views = sensor_views(sensors@);
    let ghost line = |s: SensorView| s.plain_line(kind);
    let mut i: usize = 0;
    assert(out@ =~= old(out)@ + gathered(views.take(0), line));
    while i < sensors.len()
        invariant
            i <= sensors.len(),
            views == sensor_views(sensors@),
            line == (|s: SensorView| s.plain_line(kind)),
            out@ == old(out)@ + gathered(views.take(i as int), line),
        decreases sensors.len() - i,
    {
        push_plain_line(out, &sensors[i], kind);
        proof {
            lemma_gathered_step(views, line, i as int);
            assert(out@ =~= old(out)@ + gathered(views.take(i + 1), line));
        }
        i += 1;
    }
    assert(views.take(sensors.len() as int) =~= views);
}

/// Appends the temperature section for `sensors` to the report `sysinfo`.
pub fn cpu_info(sysinfo: String, sensors: &Vec<Sensor>) -> (report: String)
    ensures
        report@ == sysinfo@ + cpu_section(sensor_views(sensors@)),
{
    let mut out = sysinfo;
    let ghost views = sensor_views(sensors@);
    let ghost line = |s: SensorView| s.driver_line();
    let mut i: usize = 0;
    assert(out@ =~= sysinfo@ + gathered(views.take(0), line));
    while i < sensors.len()
        invariant
            i <= sensors.len(),
            views == sensor_views(sensors@),
            line == (|s: SensorView| s.driver_line()),
            out@ == sysinfo@ + gathered(views.take(i as int), line),
        decreases sensors.len() - i,
    {
        push_driver_line(&mut out, &sensors[i]);
        proof {
            lemma_gathered_step(views, line, i as int);
            assert(out@ =~= sysinfo@ + gathered(views.take(i + 1), line));
        }
        i += 1;
    }
    assert(views.take(sensors.len() as int) =~= views);
    if has_per_core(sensors) {
        push_plain_lines(&mut out, sensors, SensorKind::Core);
    } else {
        push_plain_lines(&mut out, sensors, SensorKind::Cpu);
    }
    assert(out@ =~= sysinfo@ + cpu_section(views));
    out
}

} // verus!
