//! The servers of a fleet, as they follow from its settings.

use vstd::prelude::*;
use vstd::string::StringExecFns;
use crate::text::{decimal, lowercase_of, push_decimal, replace_char, replaced, to_lowercase};

verus! {

/// One server of the fleet: its number, counted from 1, its port, its
/// directory and the message it shows to players.
pub type ServerInfo = (u8, u16, String, String);

/// The directory of the server on `port`: the template, `_` and the port,
/// in lower case and with `_` for every blank.
pub open spec fn directory_name(directory_template: Seq<char>, port: nat) -> Seq<char> {
    replaced(lowercase_of(directory_template + "_"@ + decimal(port)), ' ', '_')
}

/// The message of the server with the number `index`: the template, a
/// blank and the number.
pub open spec fn motd_text(directory_template: Seq<char>, index: nat) -> Seq<char> {
    directory_template + " "@ + decimal(index)
}

/// The servers of a fleet, in the order of their numbers. The numbers start
/// at 1 and the ports at `start_port`, and both go up by one from server to
/// server.
pub fn server_iter(server_count: u8, start_port: u16, directory_template: &str) -> (servers: Vec<
    ServerInfo,
>)
    requires
        server_count > 0 ==> start_port + server_count - 1 <= u16::MAX,
    ensures
        servers.len() == server_count,
        forall|i: int|
            0 <= i < servers.len() ==> {
                &&& (#[trigger] servers[i]).0 == i + 1
                &&& servers[i].1 == start_port + i
                &&& servers[i].2@ == directory_name(directory_template@, (start_port + i) as nat)
                &&& servers[i].3@ == motd_text(directory_template@, (i + 1) as nat)
            },
{
    let mut servers: Vec<ServerInfo> = Vec::new();
    let mut idx: u8 = 0;
    while idx < server_count
        invariant
            idx <= server_count,
            server_count > 0 ==> start_port + server_count - 1 <= u16::MAX,
            servers.len() == idx,
            forall|i: int|
                0 <= i < servers.len() ==> {
                    &&& (#[trigger] servers[i]).0 == i + 1
                    &&& servers[i].1 == start_port + i
                    &&& servers[i].2@ == directory_name(
                        directory_template@,
                        (start_port + i) as nat,
                    )
                    &&& servers[i].3@ == motd_text(directory_template@, (i + 1) as nat)
                },
        decreases server_count - idx,
    {
        let port: u16 = start_port + (idx as u16);
        idx += 1;
        let mut motd = String::from_str(directory_template);
        motd.append(" ");
        push_decimal(&mut motd, idx as u64);
        let mut directory = String::from_str(directory_template);
        directory.append("_");
        push_decimal(&mut directory, port as u64);
        let directory = to_lowercase(directory.as_str());
        let directory = replace_char(directory.as_str(), ' ', '_');
        servers.push((idx, port, directory, motd));
    }
    servers
}

} // verus!
