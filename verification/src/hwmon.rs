//! Hardware telemetry metrics that the panel's hardware monitor slots can show.
use vstd::prelude::*;
use crate::protocol::HwLayout;
use vstd::string::{StrSliceExecFns, StringExecFns};
use crate::text::{chars_of, replace_all, replaced, str_equals, trim, trim_bounds};

verus! {

/// A hardware telemetry metric.
#[derive(Debug, Clone, Copy, PartialEq, Eq, Structural)]
pub enum SensorMetric {
    CpuTemp,
    CpuUsage,
    CpuFreq,
    GpuTemp,
    GpuUsage,
    RamUsed,
    RamUsage,
    CpuModel,
}

impl Default for SensorMetric {
    fn default() -> (r: Self)
        ensures
            r == SensorMetric::CpuTemp,
    {
        SensorMetric::CpuTemp
    }
}

/// Every metric, in display order.
pub open spec fn all_metrics() -> Seq<SensorMetric> {
    seq![
        SensorMetric::CpuTemp,
        SensorMetric::CpuUsage,
        SensorMetric::CpuFreq,
        SensorMetric::GpuTemp,
        SensorMetric::GpuUsage,
        SensorMetric::RamUsed,
        SensorMetric::RamUsage,
        SensorMetric::CpuModel,
    ]
}

impl SensorMetric {
    /// Returns all available hardware telemetry metrics.
    pub fn all() -> (r: &'static [SensorMetric])
        ensures
            r@ == all_metrics(),
    {
        let r: &'static [SensorMetric] = &[
            SensorMetric::CpuTemp,
            SensorMetric::CpuUsage,
            SensorMetric::CpuFreq,
            SensorMetric::GpuTemp,
            SensorMetric::GpuUsage,
            SensorMetric::RamUsed,
            SensorMetric::RamUsage,
            SensorMetric::CpuModel,
        ];
        assert(r@ =~= all_metrics());
        r
    }

    /// Returns the human-readable display name for this metric.
    pub fn display_name(&self) -> (r: &'static str)
        ensures
            r@ == match *self {
                SensorMetric::CpuTemp => "CPU Temperature (°C)"@,
                SensorMetric::CpuUsage => "CPU Utilization (%)"@,
                SensorMetric::CpuFreq => "CPU Frequency (GHz)"@,
                SensorMetric::GpuTemp => "GPU Temperature (°C)"@,
                SensorMetric::GpuUsage => "GPU Utilization (%)"@,
                SensorMetric::RamUsed => "RAM Used (GB)"@,
                SensorMetric::RamUsage => "RAM Usage (%)"@,
                SensorMetric::CpuModel => "CPU Model Name"@,
            },
    {
        match self {
            SensorMetric::CpuTemp => "CPU Temperature (°C)",
            SensorMetric::CpuUsage => "CPU Utilization (%)",
            SensorMetric::CpuFreq => "CPU Frequency (GHz)",
            SensorMetric::GpuTemp => "GPU Temperature (°C)",
            SensorMetric::GpuUsage => "GPU Utilization (%)",
            SensorMetric::RamUsed => "RAM Used (GB)",
            SensorMetric::RamUsage => "RAM Usage (%)",
            SensorMetric::CpuModel => "CPU Model Name",
        }
    }
}

/// Law: the list of all metrics names every metric exactly once.
pub proof fn law_all_metrics_listed_once(m: SensorMetric)
    ensures
        all_metrics().contains(m),
        forall|i: int, j: int|
            0 <= i < j < all_metrics().len() ==> all_metrics()[i] != all_metrics()[j],
{
    match m {
        SensorMetric::CpuTemp => assert(all_metrics()[0] == m),
        SensorMetric::CpuUsage => assert(all_metrics()[1] == m),
        SensorMetric::CpuFreq => assert(all_metrics()[2] == m),
        SensorMetric::GpuTemp => assert(all_metrics()[3] == m),
        SensorMetric::GpuUsage => assert(all_metrics()[4] == m),
        SensorMetric::RamUsed => assert(all_metrics()[5] == m),
        SensorMetric::RamUsage => assert(all_metrics()[6] == m),
        SensorMetric::CpuModel => assert(all_metrics()[7] == m),
    }
}

/// Law: the slots of each monitor layout, as the telemetry daemon fills them: Single shows the
/// CPU temperature; Dual adds the GPU temperature; Triple adds the RAM usage; Multi shows the
/// CPU model, GPU temperature, GPU usage, CPU temperature and RAM usage. Each layout has as
/// many metrics as the panel shows slots.
pub proof fn law_layout_metrics(layout: HwLayout)
    ensures
        layout_metrics(HwLayout::Single) == seq![SensorMetric::CpuTemp],
        layout_metrics(HwLayout::Dual) == layout_metrics(HwLayout::Single).push(SensorMetric::GpuTemp),
        layout_metrics(HwLayout::Triple) == layout_metrics(HwLayout::Dual).push(SensorMetric::RamUsage),
        layout_metrics(HwLayout::Multi) == seq![
            SensorMetric::CpuModel,
            SensorMetric::GpuTemp,
            SensorMetric::GpuUsage,
            SensorMetric::CpuTemp,
            SensorMetric::RamUsage,
        ],
        layout_metrics(layout).len() == crate::protocol::layout_slots(layout),
        layout != HwLayout::Multi ==> layout_metrics(layout)[0] == SensorMetric::CpuTemp,
        layout == HwLayout::Dual || layout == HwLayout::Triple ==> layout_metrics(layout)[1]
            == SensorMetric::GpuTemp,
{
    assert(layout_metrics(HwLayout::Dual) =~= layout_metrics(HwLayout::Single).push(SensorMetric::GpuTemp));
    assert(layout_metrics(HwLayout::Triple) =~= layout_metrics(HwLayout::Dual).push(SensorMetric::RamUsage));
}

/// The metric shown in each slot of a hardware monitor layout, slot 0 first.
pub open spec fn layout_metrics(layout: HwLayout) -> Seq<SensorMetric> {
    match layout {
        HwLayout::Single => seq![SensorMetric::CpuTemp],
        HwLayout::Dual => seq![SensorMetric::CpuTemp, SensorMetric::GpuTemp],
        HwLayout::Triple => seq![SensorMetric::CpuTemp, SensorMetric::GpuTemp, SensorMetric::RamUsage],
        HwLayout::Multi => seq![
            SensorMetric::CpuModel,
            SensorMetric::GpuTemp,
            SensorMetric::GpuUsage,
            SensorMetric::CpuTemp,
            SensorMetric::RamUsage,
        ],
    }
}

/// The metrics that the telemetry daemon shows in the slots of `layout`, slot 0 first (a
/// temperature warning replaces slot 0).
pub fn monitor_metrics(layout: HwLayout) -> (r: &'static [SensorMetric])
    ensures
        r@ == layout_metrics(layout),
        r@.len() == crate::protocol::layout_slots(layout),
{
    match layout {
        HwLayout::Single => {
            let r: &'static [SensorMetric] = &[SensorMetric::CpuTemp];
            assert(r@ =~= layout_metrics(layout));
            r
        },
        HwLayout::Dual => {
            let r: &'static [SensorMetric] = &[SensorMetric::CpuTemp, SensorMetric::GpuTemp];
            assert(r@ =~= layout_metrics(layout));
            r
        },
        HwLayout::Triple => {
            let r: &'static [SensorMetric] = &[
                SensorMetric::CpuTemp,
                SensorMetric::GpuTemp,
                SensorMetric::RamUsage,
            ];
            assert(r@ =~= layout_metrics(layout));
            r
        },
        HwLayout::Multi => {
            let r: &'static [SensorMetric] = &[
                SensorMetric::CpuModel,
                SensorMetric::GpuTemp,
                SensorMetric::GpuUsage,
                SensorMetric::CpuTemp,
                SensorMetric::RamUsage,
            ];
            assert(r@ =~= layout_metrics(layout));
            r
        },
    }
}

/// The processor name that the CPU model slot shows: "AMD Ryzen " shortened to "Ryzen ",
/// and " 16-Core Processor" and " Processor" dropped.
pub open spec fn short_cpu_name_of(name: Seq<char>) -> Seq<char> {
    replaced(
        replaced(replaced(name, "AMD Ryzen "@, "Ryzen "@), " 16-Core Processor"@, ""@),
        " Processor"@,
        ""@,
    )
}

/// The short processor name of the CPU model slot, as `short_cpu_name_of`.
pub fn short_cpu_name(name: &str) -> (r: String)
    ensures
        r@ == short_cpu_name_of(name@),
{
    proof {
        reveal_strlit("AMD Ryzen ");
        reveal_strlit(" 16-Core Processor");
        reveal_strlit(" Processor");
    }
    let a = replace_all(name, "AMD Ryzen ", "Ryzen ");
    let b = replace_all(a.as_str(), " 16-Core Processor", "");
    replace_all(b.as_str(), " Processor", "")
}

/// The GPU name that the dashboard shows: "NVIDIA GeForce " shortened to "RTX ", then
/// "NVIDIA " dropped.
pub open spec fn short_gpu_name_of(name: Seq<char>) -> Seq<char> {
    replaced(replaced(name, "NVIDIA GeForce "@, "RTX "@), "NVIDIA "@, ""@)
}

/// The short GPU name, as `short_gpu_name_of`.
pub fn short_gpu_name(name: &str) -> (r: String)
    ensures
        r@ == short_gpu_name_of(name@),
{
    proof {
        reveal_strlit("NVIDIA GeForce ");
        reveal_strlit("NVIDIA ");
    }
    let a = replace_all(name, "NVIDIA GeForce ", "RTX ");
    replace_all(a.as_str(), "NVIDIA ", "")
}

/// Whether the telemetry daemon raises its temperature alert: a threshold is set and the CPU or
/// the GPU temperature, in whole degrees, reaches it (a sensor that gave no reading never does).
pub fn temperature_warning(threshold: Option<u32>, cpu_degrees: Option<u32>, gpu_degrees: Option<u32>) -> (r: bool)
    ensures
        r == match threshold {
            None => false,
            Some(t) => (match cpu_degrees {
                Some(c) => c >= t,
                None => false,
            }) || (match gpu_degrees {
                Some(g) => g >= t,
                None => false,
            }),
        },
{
    match threshold {
        None => false,
        Some(t) => {
            let cpu_hot = match cpu_degrees {
                Some(c) => c >= t,
                None => false,
            };
            let gpu_hot = match gpu_degrees {
                Some(g) => g >= t,
                None => false,
            };
            cpu_hot || gpu_hot
        },
    }
}

/// The label that replaces slot 0 of a layout while the temperature alert is raised.
pub fn warning_label(layout: HwLayout) -> (r: &'static str)
    ensures
        r@ == match layout {
            HwLayout::Single => "TEMP WARN"@,
            HwLayout::Multi => "TEMP ALERT"@,
            _ => "CPU WARN"@,
        },
{
    match layout {
        HwLayout::Single => "TEMP WARN",
        HwLayout::Multi => "TEMP ALERT",
        _ => "CPU WARN",
    }
}

/// The pieces of `s` that the separator `sep` delimits, in order, continuing a split that has
/// produced `done` and is collecting the piece `cur`: every separator ends a piece, and the
/// end of the text ends the last one (so a text with `k` separators has `k + 1` pieces).
pub open spec fn split_pieces(s: Seq<char>, sep: char, done: Seq<Seq<char>>, cur: Seq<char>) -> Seq<Seq<char>>
    decreases s.len(),
{
    if s.len() == 0 {
        done.push(cur)
    } else if s[0] == sep {
        split_pieces(s.drop_first(), sep, done.push(cur), seq![])
    } else {
        split_pieces(s.drop_first(), sep, done, cur.push(s[0]))
    }
}

/// The pieces of `s` between the separators `sep`, as `str::split` gives them.
pub open spec fn split_on(s: Seq<char>, sep: char) -> Seq<Seq<char>> {
    split_pieces(s, sep, seq![], seq![])
}

/// The fields of a line of comma-separated values: the text trimmed, split at every comma,
/// and each field trimmed.
pub open spec fn csv_fields_of(text: Seq<char>) -> Seq<Seq<char>> {
    split_on(trim(text), ',').map_values(|f: Seq<char>| trim(f))
}

/// The trimmed comma-separated fields of `text`, as `csv_fields_of` (how the GPU query's
/// answer is read).
pub fn csv_fields(text: &str) -> (r: Vec<String>)
    ensures
        r@.map_values(|f: String| f@) == csv_fields_of(text@),
{
    let v = chars_of(text);
    let n = v.len();
    let (a, b) = trim_bounds(&v, 0, n);
    assert(v@.subrange(0, n as int) =~= text@);
    let ghost t = v@.subrange(a as int, b as int);
    let mut out: Vec<String> = Vec::new();
    let ghost mut done: Seq<Seq<char>> = seq![];
    let mut start = a;
    let mut i = a;
    assert(v@.subrange(a as int, a as int) =~= Seq::<char>::empty());
    while i < b
        invariant
            n == v@.len(),
            v@ == text@,
            a <= start <= i <= b <= n,
            t == v@.subrange(a as int, b as int),
            split_pieces(v@.subrange(i as int, b as int), ',', done, v@.subrange(start as int, i as int))
                == split_on(t, ','),
            out@.len() == done.len(),
            forall|k: int| 0 <= k < done.len() ==> (#[trigger] out@[k])@ == trim(done[k]),
        decreases b - i,
    {
        let ghost rest = v@.subrange(i as int, b as int);
        assert(rest[0] == v@[i as int]);
        assert(rest.drop_first() =~= v@.subrange(i + 1, b as int));
        if v[i] == ',' {
            let (x, y) = trim_bounds(&v, start, i);
            let field = String::from_str(text.substring_char(x, y));
            out.push(field);
            proof {
                done = done.push(v@.subrange(start as int, i as int));
            }
            start = i + 1;
            assert(v@.subrange(start as int, start as int) =~= Seq::<char>::empty());
        } else {
            assert(v@.subrange(start as int, i + 1) =~= v@.subrange(start as int, i as int).push(
                v@[i as int],
            ));
        }
        i = i + 1;
    }
    assert(v@.subrange(b as int, b as int) =~= Seq::<char>::empty());
    let (x, y) = trim_bounds(&v, start, b);
    out.push(String::from_str(text.substring_char(x, y)));
    proof {
        done = done.push(v@.subrange(start as int, b as int));
        assert(done == split_on(t, ','));
        assert(out@.map_values(|f: String| f@) =~= csv_fields_of(text@));
    }
    out
}

/// Whether `name`, trimmed, is `word`.
fn trimmed_is(name: &str, word: &str) -> (r: bool)
    ensures
        r == (trim(name@) == word@),
{
    let v = chars_of(name);
    let n = v.len();
    let (a, b) = trim_bounds(&v, 0, n);
    assert(v@.subrange(0, n as int) =~= name@);
    str_equals(name.substring_char(a, b), word)
}

/// Whether a hwmon chip name (as its `name` file holds it) is one of the CPU temperature
/// drivers: k10temp, zenpower or coretemp.
pub fn is_cpu_sensor_chip(name: &str) -> (r: bool)
    ensures
        r == (trim(name@) == "k10temp"@ || trim(name@) == "zenpower"@ || trim(name@) == "coretemp"@),
{
    trimmed_is(name, "k10temp") || trimmed_is(name, "zenpower") || trimmed_is(name, "coretemp")
}

/// Whether a hwmon chip name is the AMD GPU driver's.
pub fn is_gpu_sensor_chip(name: &str) -> (r: bool)
    ensures
        r == (trim(name@) == "amdgpu"@),
{
    trimmed_is(name, "amdgpu")
}

} // verus!
