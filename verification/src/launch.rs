use vstd::prelude::*;
use vstd::string::StringExecFns;

use crate::hosts::HostEntry;
use crate::hosts::HostEntryV;

verus! {

/// The `ssh` invocation for an entry: `ssh <user>@<alias>` when a user is
/// configured, else `ssh <alias>`. The alias is passed, not the resolved
/// host: `ssh` itself re-resolves the alias through the same config file.
pub open spec fn spec_ssh_invocation(e: HostEntryV) -> Seq<char> {
    match e.user {
        Some(u) => "ssh "@ + u + "@"@ + e.name,
        None => "ssh "@ + e.name,
    }
}

pub fn ssh_invocation(entry: &HostEntry) -> (r: String)
    ensures
        r@ == spec_ssh_invocation(entry@),
{
    let mut s: String = "ssh ".to_owned();
    match &entry.user {
        Some(u) => {
            s.append(u.as_str());
            s.append("@");
        },
        None => {},
    }
    s.append(entry.name.as_str());
    s
}

/// The full shell command that opens a terminal emulator running the `ssh`
/// invocation inside a sub-shell: `<terminal> -e bash -c '<ssh invocation>'`.
pub open spec fn spec_launch_command(term: Seq<char>, e: HostEntryV) -> Seq<char> {
    term + " -e bash -c '"@ + spec_ssh_invocation(e) + "'"@
}

pub fn launch_command(term: &String, entry: &HostEntry) -> (r: String)
    ensures
        r@ == spec_launch_command(term@, entry@),
{
    let mut s = term.clone();
    s.append(" -e bash -c '");
    let ssh = ssh_invocation(entry);
    s.append(ssh.as_str());
    s.append("'");
    s
}

} // verus!
