//! The list of devices as the user reads it.

use crate::audio::{AudioDevice, DeviceRole};
use crate::text;
use vstd::prelude::*;

verus! {

impl DeviceRole {
    /// The short name of a role.
    pub open spec fn short(self) -> Seq<char> {
        match self {
            DeviceRole::Microphone => "mic"@,
            DeviceRole::OutputSink => "sink"@,
            DeviceRole::MonitorSource => "monitor"@,
        }
    }

    fn short_name(self) -> (r: &'static str)
        ensures
            r@ == self.short(),
    {
        match self {
            DeviceRole::Microphone => "mic",
            DeviceRole::OutputSink => "sink",
            DeviceRole::MonitorSource => "monitor",
        }
    }
}

/// One device of a list; the marked one carries a star and a label.
pub open spec fn device_line(d: AudioDevice, mark: Seq<char>, label: Seq<char>) -> Seq<char> {
    if d.id@ == mark {
        "  * "@ + d.id@ + "  "@ + d.description@ + "  ["@ + d.role.short() + "]"@ + "  ("@ + label
            + ")"@ + "\n"@
    } else {
        "    "@ + d.id@ + "  "@ + d.description@ + "  ["@ + d.role.short() + "]"@ + "\n"@
    }
}

pub open spec fn device_lines(
    devices: Seq<AudioDevice>,
    mark: Seq<char>,
    label: Seq<char>,
) -> Seq<char>
    decreases devices.len(),
{
    if devices.len() == 0 {
        Seq::empty()
    } else {
        device_lines(devices.drop_last(), mark, label) + device_line(devices.last(), mark, label)
    }
}

/// A list of devices.
pub open spec fn group_text(
    devices: Seq<AudioDevice>,
    mark: Seq<char>,
    label: Seq<char>,
) -> Seq<char> {
    if devices.len() == 0 {
        "  (none)\n"@
    } else {
        device_lines(devices, mark, label)
    }
}

fn push_device(out: &mut String, d: &AudioDevice, mark: &str, label: &str)
    ensures
        final(out)@ == old(out)@ + device_line(*d, mark@, label@),
{
    let ghost was = out@;
    let marked = text::same(d.id.as_str(), mark);
    if marked {
        out.append("  * ");
    } else {
        out.append("    ");
    }
    out.append(d.id.as_str());
    out.append("  ");
    out.append(d.description.as_str());
    out.append("  [");
    out.append(d.role.short_name());
    out.append("]");
    if marked {
        out.append("  (");
        out.append(label);
        out.append(")");
    }
    out.append("\n");
    assert(out@ =~= was + device_line(*d, mark@, label@));
}

/// A list of devices, of which the one with the identifier `mark` is marked.
pub fn print_group(devices: &Vec<AudioDevice>, mark: &str, label: &str) -> (r: String)
    ensures
        r@ == group_text(devices@, mark@, label@),
{
    if devices.len() == 0 {
        return "  (none)\n".to_owned();
    }
    let mut out = String::new();
    let mut i: usize = 0;
    assert(out@ =~= device_lines(devices@.take(0), mark@, label@));
    while i < devices.len()
        invariant
            i <= devices@.len(),
            out@ == device_lines(devices@.take(i as int), mark@, label@),
        decreases devices.len() - i,
    {
        push_device(&mut out, &devices[i], mark, label);
        i += 1;
        assert(devices@.take(i as int).drop_last() =~= devices@.take(i - 1));
    }
    assert(devices@.take(i as int) =~= devices@);
    out
}

/// What the audio server has to choose from, and what is chosen.
#[derive(Debug)]
pub struct DeviceLists {
    pub inputs: Vec<AudioDevice>,
    pub outputs: Vec<AudioDevice>,
    pub monitors: Vec<AudioDevice>,
    pub microphone: AudioDevice,
    pub output: AudioDevice,
    pub monitor: AudioDevice,
}

/// All devices as the user reads them.
pub open spec fn devices_text(l: DeviceLists) -> Seq<char> {
    "Microphones:\n"@ + group_text(l.inputs@, l.microphone.id@, "default"@) + "\nOutput sinks:\n"@
        + group_text(l.outputs@, l.output.id@, "default"@) + "\nMonitor sources:\n"@ + group_text(
        l.monitors@,
        l.monitor.id@,
        "selected for SYSTEM"@,
    ) + "\nDefault microphone: "@ + l.microphone.summary_text() + "\nDefault output: "@
        + l.output.summary_text() + "\nSelected monitor: "@ + l.monitor.summary_text() + "\n"@
}

/// All devices as the user reads them.
pub fn print_devices(l: &DeviceLists) -> (r: String)
    ensures
        r@ == devices_text(*l),
{
    let mut out = "Microphones:\n".to_owned();
    out.append(print_group(&l.inputs, l.microphone.id.as_str(), "default").as_str());
    out.append("\nOutput sinks:\n");
    out.append(print_group(&l.outputs, l.output.id.as_str(), "default").as_str());
    out.append("\nMonitor sources:\n");
    out.append(print_group(&l.monitors, l.monitor.id.as_str(), "selected for SYSTEM").as_str());
    out.append("\nDefault microphone: ");
    out.append(l.microphone.summary().as_str());
    out.append("\nDefault output: ");
    out.append(l.output.summary().as_str());
    out.append("\nSelected monitor: ");
    out.append(l.monitor.summary().as_str());
    out.append("\n");
    out
}

/// Devices are listed in order, one to a line; the marked one carries a star and the label.
pub proof fn law_devices_are_listed_in_order(
    devices: Seq<AudioDevice>,
    mark: Seq<char>,
    label: Seq<char>,
)
    ensures
        devices.len() == 0 ==> group_text(devices, mark, label) == "  (none)\n"@,
        devices.len() > 0 ==> group_text(devices, mark, label) == devices.map_values(
            |d: AudioDevice| device_line(d, mark, label),
        ).flatten(),
{
    lemma_lines_in_order(devices, mark, label);
}

proof fn lemma_lines_in_order(devices: Seq<AudioDevice>, mark: Seq<char>, label: Seq<char>)
    ensures
        device_lines(devices, mark, label) == devices.map_values(
            |d: AudioDevice| device_line(d, mark, label),
        ).flatten(),
    decreases devices.len(),
{
    let f = |d: AudioDevice| device_line(d, mark, label);
    let parts = devices.map_values(f);
    parts.lemma_flatten_and_flatten_alt_are_equivalent();
    if devices.len() > 0 {
        let front = devices.drop_last();
        lemma_lines_in_order(front, mark, label);
        let before = front.map_values(f);
        before.lemma_flatten_and_flatten_alt_are_equivalent();
        assert(parts.drop_last() =~= before);
    }
}

/// What a line says of a device.
pub proof fn law_what_is_said_of_a_device(d: AudioDevice, mark: Seq<char>, label: Seq<char>)
    ensures
        ({
            let role = match d.role {
                DeviceRole::Microphone => "mic"@,
                DeviceRole::OutputSink => "sink"@,
                DeviceRole::MonitorSource => "monitor"@,
            };
            let about = d.id@ + "  "@ + d.description@ + "  ["@ + role + "]"@;
            &&& d.id@ == mark ==> device_line(d, mark, label) == "  * "@ + about + "  ("@ + label
                + ")"@ + "\n"@
            &&& d.id@ != mark ==> device_line(d, mark, label) == "    "@ + about + "\n"@
        }),
{
    let role = match d.role {
        DeviceRole::Microphone => "mic"@,
        DeviceRole::OutputSink => "sink"@,
        DeviceRole::MonitorSource => "monitor"@,
    };
    let about = d.id@ + "  "@ + d.description@ + "  ["@ + role + "]"@;
    assert("  * "@ + about + "  ("@ + label + ")"@ + "\n"@ =~= "  * "@ + d.id@ + "  "@
        + d.description@ + "  ["@ + role + "]"@ + "  ("@ + label + ")"@ + "\n"@);
    assert("    "@ + about + "\n"@ =~= "    "@ + d.id@ + "  "@ + d.description@ + "  ["@ + role
        + "]"@ + "\n"@);
}

/// The devices are shown in three groups, each with its own devices and its own choice.
pub proof fn law_devices_are_shown_in_their_groups(l: DeviceLists)
    ensures
        devices_text(l) == seq![
            "Microphones:\n"@,
            group_text(l.inputs@, l.microphone.id@, "default"@),
            "\nOutput sinks:\n"@,
            group_text(l.outputs@, l.output.id@, "default"@),
            "\nMonitor sources:\n"@,
            group_text(l.monitors@, l.monitor.id@, "selected for SYSTEM"@),
            "\nDefault microphone: "@,
            l.microphone.summary_text(),
            "\nDefault output: "@,
            l.output.summary_text(),
            "\nSelected monitor: "@,
            l.monitor.summary_text(),
            "\n"@,
        ].fold_left(Seq::<char>::empty(), |a: Seq<char>, b: Seq<char>| a + b),
{
    let f = |a: Seq<char>, b: Seq<char>| a + b;
    let parts = seq![
        "Microphones:\n"@,
        group_text(l.inputs@, l.microphone.id@, "default"@),
        "\nOutput sinks:\n"@,
        group_text(l.outputs@, l.output.id@, "default"@),
        "\nMonitor sources:\n"@,
        group_text(l.monitors@, l.monitor.id@, "selected for SYSTEM"@),
        "\nDefault microphone: "@,
        l.microphone.summary_text(),
        "\nDefault output: "@,
        l.output.summary_text(),
        "\nSelected monitor: "@,
        l.monitor.summary_text(),
        "\n"@,
    ];
    reveal_with_fuel(Seq::fold_left, 14);
    assert(Seq::<char>::empty() + parts[0] =~= parts[0]);
}

} // verus!
