//! `heco device`: its arguments and what it prints.
use crate::text::{concat2, owned, strings_view};
use vstd::prelude::*;

verus! {

/// Arguments of `heco device`.
pub struct DeviceArgs {
    pub command: DeviceCommands,
}

/// The subcommands of `heco device`.
pub enum DeviceCommands {
    /// List all active devices.
    List(ListArgs),
}

/// Arguments of `heco device list`.
pub struct ListArgs {}

/// The lines of `heco device list`: each device as `name (target)`, or a
/// note that none is active.
pub open spec fn device_lines(devices: Seq<(Seq<char>, Seq<char>)>) -> Seq<Seq<char>> {
    if devices.len() == 0 {
        seq!["No active devices found."@]
    } else {
        devices.map_values(|d: (Seq<char>, Seq<char>)| d.0 + " ("@ + d.1 + ")"@)
    }
}

/// Devices as name and target, as plain values.
pub open spec fn devices_view(devices: Seq<(String, String)>) -> Seq<(Seq<char>, Seq<char>)> {
    devices.map_values(|d: (String, String)| (d.0@, d.1@))
}

/// The lines that `heco device` prints, from the active devices as name and
/// target.
pub fn handle_device(args: &DeviceArgs, devices: &Vec<(String, String)>) -> (r: Vec<String>)
    ensures
        match args.command {
            DeviceCommands::List(_) => strings_view(r@) == device_lines(devices_view(devices@)),
        },
{
    match &args.command {
        DeviceCommands::List(list_args) => handle_list(list_args, devices),
    }
}

/// The lines of `heco device list` (see `device_lines`), from the active
/// devices as name and target.
pub fn handle_list(_args: &ListArgs, devices: &Vec<(String, String)>) -> (r: Vec<String>)
    ensures
        strings_view(r@) == device_lines(devices_view(devices@)),
{
    let ghost dv = devices_view(devices@);
    let mut out: Vec<String> = Vec::new();
    if devices.len() == 0 {
        out.push(owned("No active devices found."));
        assert(strings_view(out@) =~= device_lines(dv));
        return out;
    }
    let ghost lines = dv.map_values(|d: (Seq<char>, Seq<char>)| d.0 + " ("@ + d.1 + ")"@);
    let mut i: usize = 0;
    while i < devices.len()
        invariant
            i <= devices@.len(),
            dv == devices_view(devices@),
            lines == dv.map_values(|d: (Seq<char>, Seq<char>)| d.0 + " ("@ + d.1 + ")"@),
            strings_view(out@) == lines.take(i as int),
        decreases devices.len() - i,
    {
        let (name, target) = &devices[i];
        let mut line = concat2(name.as_str(), " (");
        line.append(target.as_str());
        line.append(")");
        let ghost before = strings_view(out@);
        out.push(line);
        assert(strings_view(out@) =~= before.push(lines[i as int]));
        assert(lines.take(i + 1) =~= lines.take(i as int).push(lines[i as int]));
        i = i + 1;
    }
    assert(lines.take(i as int) =~= lines);
    out
}

} // verus!
