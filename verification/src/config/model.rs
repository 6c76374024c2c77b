//! The backend's configuration: which cores it can start and where its
//! socket lives.
use crate::str_map::StrMap;
use vstd::prelude::*;

verus! {

/// Where the backend listens.
#[derive(Debug)]
pub struct Server {
    pub uds_path: String,
}

impl Default for Server {
    fn default() -> (r: Self)
        ensures
            r.uds_path@ == "/run/PCW/backend/socket"@,
    {
        Server { uds_path: "/run/PCW/backend/socket".to_string() }
    }
}

/// The backend's configuration.
#[derive(Debug)]
pub struct Config {
    /// Core tag to the command that starts it; `%c` stands for the config path.
    pub cores: StrMap<Vec<String>>,
    pub server: Server,
}

/// The characters of each string of a command.
pub open spec fn command_view(c: Vec<String>) -> Seq<Seq<char>> {
    c@.map_values(|s: String| s@)
}

/// The command of the `sing-box` core: the config path goes in its arguments.
pub open spec fn sing_box_command() -> Seq<Seq<char>> {
    seq!["sing-box"@, "run"@, "-c"@, "%c"@]
}

/// The command of the `xray-core` core: the config goes to its stdin.
pub open spec fn xray_command() -> Seq<Seq<char>> {
    seq!["xray"@, "run"@]
}

fn strings(parts: &[&str]) -> (r: Vec<String>)
    ensures
        r@.map_values(|s: String| s@) == parts@.map_values(|s: &str| s@),
{
    let mut r: Vec<String> = Vec::new();
    let mut i: usize = 0;
    while i < parts.len()
        invariant
            i <= parts@.len(),
            r@.map_values(|s: String| s@) == parts@.subrange(0, i as int).map_values(|s: &str| s@),
        decreases parts@.len() - i,
    {
        let ghost before = r@;
        let part: &str = parts[i];
        let owned = part.to_string();
        assert(owned@ == parts@[i as int]@);
        r.push(owned);
        assert(r@.map_values(|s: String| s@) =~= before.map_values(|s: String| s@).push(owned@));
        assert(parts@.subrange(0, i + 1).map_values(|s: &str| s@) =~= parts@.subrange(
            0,
            i as int,
        ).map_values(|s: &str| s@).push(parts@[i as int]@));
        assert(r@.map_values(|s: String| s@) =~= parts@.subrange(0, i + 1).map_values(
            |s: &str| s@,
        ));
        i = i + 1;
    }
    assert(parts@.subrange(0, i as int) =~= parts@);
    r
}

impl Default for Config {
    fn default() -> (r: Self)
        ensures
            r.cores@.dom() == set!["sing-box"@, "xray-core"@],
            command_view(r.cores@["sing-box"@]) == sing_box_command(),
            command_view(r.cores@["xray-core"@]) == xray_command(),
            r.server.uds_path@ == "/run/PCW/backend/socket"@,
    {
        let mut cores: StrMap<Vec<String>> = StrMap::new();
        let sing_box = strings(&["sing-box", "run", "-c", "%c"]);
        let xray = strings(&["xray", "run"]);
        assert(command_view(sing_box) =~= sing_box_command());
        assert(command_view(xray) =~= xray_command());
        cores.insert("sing-box".to_string(), sing_box);
        cores.insert("xray-core".to_string(), xray);
        proof {
            reveal_strlit("sing-box");
            reveal_strlit("xray-core");
            assert("sing-box"@ != "xray-core"@) by {
                assert("sing-box"@[0] != "xray-core"@[0]);
            }
        }
        assert(cores@.dom() =~= set!["sing-box"@, "xray-core"@]);
        Config { cores, server: Server::default() }
    }
}

} // verus!
