//! The servers of a cluster on one machine.

use vstd::prelude::*;
use vstd::string::StringExecFns;

use crate::database::own_fields;
use crate::text::{
    decimal, decimal_text, digit_char, lemma_split_at, lemma_split_whole, split_text,
};

verus! {

/// The program that is started for each server.
pub const HELLOWORLD_SERVER: &'static str = "helloworld-server";

/// The ports of a server.
#[derive(Clone, Copy, Debug)]
pub struct ServerArgs {
    /// The port at which it serves clients.
    pub frontend_port: u16,
    /// The port at which it serves its peers.
    pub raft_port: u16,
}

/// An address on this machine.
pub open spec fn local_addr(port: u16) -> Seq<char> {
    "[::1]:"@ + decimal_text(port as nat)
}

/// How a server reaches its peer at a port.
pub open spec fn peer_addr(port: u16) -> Seq<char> {
    "http://[::1]:"@ + decimal_text(port as nat)
}

/// The addresses of the first `n` servers without server `own`.
pub open spec fn other_addrs(servers: Seq<ServerArgs>, own: int, n: int) -> Seq<Seq<char>>
    decreases n,
{
    if n <= 0 {
        seq![]
    } else if n - 1 == own {
        other_addrs(servers, own, n - 1)
    } else {
        other_addrs(servers, own, n - 1).push(peer_addr(servers[n - 1].raft_port))
    }
}

/// Each text with a separator in front of it.
pub open spec fn each_behind(separator: char, parts: Seq<Seq<char>>) -> Seq<char>
    decreases parts.len(),
{
    if parts.len() == 0 {
        seq![]
    } else {
        each_behind(separator, parts.drop_last()) + seq![separator] + parts.last()
    }
}

/// The argument with which a server is started: its own two addresses, and behind semicolons
/// those of all the others.
pub open spec fn command_text(servers: Seq<ServerArgs>, own: int) -> Seq<char> {
    local_addr(servers[own].frontend_port) + ","@ + local_addr(servers[own].raft_port)
        + each_behind(';', other_addrs(servers, own, servers.len() as int))
}

/// The arguments with which the servers of a cluster are started, one for each.
pub fn start_local_test(server_args: &Vec<ServerArgs>) -> (commands: Vec<String>)
    ensures
        commands@.len() == server_args@.len(),
        forall|i: int|
            0 <= i < commands@.len() ==> (#[trigger] commands@[i])@ == command_text(
                server_args@,
                i,
            ),
{
    let mut commands: Vec<String> = Vec::new();
    let mut i: usize = 0;
    while i < server_args.len()
        invariant
            i <= server_args@.len(),
            commands@.len() == i,
            forall|j: int|
                0 <= j < i ==> (#[trigger] commands@[j])@ == command_text(server_args@, j),
        decreases server_args.len() - i,
    {
        commands.push(command_string(server_args, i));
        i = i + 1;
    }
    commands
}

/// The argument with which one of the servers is started.
fn command_string(server_args: &Vec<ServerArgs>, own: usize) -> (command: String)
    requires
        own < server_args@.len(),
    ensures
        command@ == command_text(server_args@, own as int),
{
    let mut command = "[::1]:".to_owned();
    command.append(decimal(server_args[own].frontend_port as u64).as_str());
    command.append(",");
    command.append("[::1]:");
    command.append(decimal(server_args[own].raft_port as u64).as_str());
    let ghost start = command@;
    assert(start =~= local_addr(server_args@[own as int].frontend_port) + ","@ + local_addr(
        server_args@[own as int].raft_port,
    ));
    let mut j: usize = 0;
    assert(command@ =~= start + each_behind(';', other_addrs(server_args@, own as int, 0)));
    while j < server_args.len()
        invariant
            j <= server_args@.len(),
            command@ == start + each_behind(
                ';',
                other_addrs(server_args@, own as int, j as int),
            ),
        decreases server_args.len() - j,
    {
        if j != own {
            let ghost others = other_addrs(server_args@, own as int, j as int);
            command.append(";http://[::1]:");
            command.append(decimal(server_args[j].raft_port as u64).as_str());
            proof {
                let addr = peer_addr(server_args@[j as int].raft_port);
                reveal_strlit(";http://[::1]:");
                reveal_strlit("http://[::1]:");
                assert(";http://[::1]:"@ =~= seq![';'] + "http://[::1]:"@);
                assert(others.push(addr).drop_last() =~= others);
                assert(command@ =~= start + each_behind(';', others.push(addr)));
            }
        }
        j = j + 1;
    }
    command
}

/// A number in decimal notation consists of digits.
proof fn lemma_decimal_digits(number: nat)
    ensures
        forall|i: int|
            0 <= i < decimal_text(number).len() ==> '0' <= (#[trigger] decimal_text(number)[i])
                && decimal_text(number)[i] <= '9',
    decreases number,
{
    let text = decimal_text(number);
    if number < 10 {
        assert(text.len() == 1 && text[0] == digit_char(number as int));
    } else {
        lemma_decimal_digits(number / 10);
        let front = decimal_text(number / 10);
        assert(text == front.push(digit_char(number as int % 10)));
        assert forall|i: int| 0 <= i < text.len() implies '0' <= (#[trigger] text[i]) && text[i]
            <= '9' by {
            if i < front.len() {
                assert(text[i] == front[i]);
            }
        }
    }
}

/// No address holds a comma or a semicolon.
proof fn lemma_addrs_are_plain(port: u16)
    ensures
        forall|i: int|
            0 <= i < local_addr(port).len() ==> (#[trigger] local_addr(port)[i]) != ','
                && local_addr(port)[i] != ';',
        forall|i: int|
            0 <= i < peer_addr(port).len() ==> (#[trigger] peer_addr(port)[i]) != ','
                && peer_addr(port)[i] != ';',
{
    reveal_strlit("[::1]:");
    reveal_strlit("http://[::1]:");
    lemma_decimal_digits(port as nat);
}

/// A first part and more behind separators is what its parts are joined of.
proof fn lemma_split_each_behind(first: Seq<char>, separator: char, parts: Seq<Seq<char>>)
    requires
        forall|j: int| 0 <= j < first.len() ==> #[trigger] first[j] != separator,
        forall|i: int, j: int|
            #![trigger parts[i][j]]
            0 <= i < parts.len() && 0 <= j < parts[i].len() ==> parts[i][j] != separator,
    ensures
        split_text(first + each_behind(separator, parts), separator) == seq![first] + parts,
    decreases parts.len(),
{
    if parts.len() == 0 {
        assert(first + each_behind(separator, parts) =~= first);
        lemma_split_whole(first, separator);
        assert(seq![first] + parts =~= seq![first]);
    } else {
        let rest = parts.skip(1);
        lemma_each_behind_front(separator, parts);
        assert(first + each_behind(separator, parts) =~= first + seq![separator] + (parts[0]
            + each_behind(separator, rest)));
        lemma_split_at(first, separator, parts[0] + each_behind(separator, rest));
        assert forall|i: int, j: int|
            #![trigger rest[i][j]]
            0 <= i < rest.len() && 0 <= j < rest[i].len() implies rest[i][j] != separator by {
            assert(rest[i] == parts[i + 1]);
            assert(parts[i + 1][j] != separator);
        }
        assert forall|j: int| 0 <= j < parts[0].len() implies #[trigger] parts[0][j]
            != separator by {}
        lemma_split_each_behind(parts[0], separator, rest);
        assert(seq![first] + (seq![parts[0]] + rest) =~= seq![first] + parts);
    }
}

/// The first part can be taken from the front.
proof fn lemma_each_behind_front(separator: char, parts: Seq<Seq<char>>)
    requires
        parts.len() > 0,
    ensures
        each_behind(separator, parts) == seq![separator] + parts[0] + each_behind(
            separator,
            parts.skip(1),
        ),
    decreases parts.len(),
{
    if parts.len() == 1 {
        assert(parts.drop_last() =~= seq![]);
        assert(parts.skip(1) =~= seq![]);
        assert(each_behind(separator, parts) =~= seq![separator] + parts[0] + each_behind(
            separator,
            parts.skip(1),
        ));
    } else {
        lemma_each_behind_front(separator, parts.drop_last());
        assert(parts.drop_last().skip(1) =~= parts.skip(1).drop_last());
        assert(each_behind(separator, parts) =~= seq![separator] + parts[0] + each_behind(
            separator,
            parts.skip(1),
        ));
    }
}

/// The other servers have plain addresses.
proof fn lemma_others_are_plain(servers: Seq<ServerArgs>, own: int, n: int)
    requires
        0 <= n <= servers.len(),
    ensures
        forall|i: int, j: int|
            #![trigger other_addrs(servers, own, n)[i][j]]
            0 <= i < other_addrs(servers, own, n).len() && 0 <= j < other_addrs(
                servers,
                own,
                n,
            )[i].len() ==> other_addrs(servers, own, n)[i][j] != ';',
    decreases n,
{
    if n > 0 {
        lemma_others_are_plain(servers, own, n - 1);
        lemma_addrs_are_plain(servers[n - 1].raft_port);
        let front = other_addrs(servers, own, n - 1);
        let all = other_addrs(servers, own, n);
        assert forall|i: int, j: int|
            #![trigger all[i][j]]
            0 <= i < all.len() && 0 <= j < all[i].len() implies all[i][j] != ';' by {
            if i < front.len() {
                assert(all[i] == front[i]);
                assert(front[i][j] != ';');
            } else {
                assert(all[i] == peer_addr(servers[n - 1].raft_port));
            }
        }
    }
}

/// A server reads from its argument what was put into it: its own addresses, and those of
/// all the other servers.
pub proof fn law_servers_read_their_commands(servers: Seq<ServerArgs>, own: int)
    requires
        0 <= own < servers.len(),
    ensures
        own_fields(command_text(servers, own)) == seq![
            local_addr(servers[own].frontend_port),
            local_addr(servers[own].raft_port),
        ],
        split_text(command_text(servers, own), ';').skip(1) == other_addrs(
            servers,
            own,
            servers.len() as int,
        ),
{
    let frontend = local_addr(servers[own].frontend_port);
    let raft = local_addr(servers[own].raft_port);
    let first = frontend + ","@ + raft;
    let others = other_addrs(servers, own, servers.len() as int);
    lemma_addrs_are_plain(servers[own].frontend_port);
    lemma_addrs_are_plain(servers[own].raft_port);
    lemma_others_are_plain(servers, own, servers.len() as int);
    reveal_strlit(",");
    assert(","@ =~= seq![',']);
    assert forall|j: int| 0 <= j < first.len() implies #[trigger] first[j] != ';' by {
        if j < frontend.len() {
            assert(first[j] == frontend[j]);
        } else if j == frontend.len() {
            assert(first[j] == ',');
        } else {
            assert(first[j] == raft[j - frontend.len() - 1]);
        }
    }
    lemma_split_each_behind(first, ';', others);
    assert((seq![first] + others).skip(1) =~= others);
    lemma_split_at(frontend, ',', raft);
    lemma_split_whole(raft, ',');
    assert(seq![frontend] + seq![raft] =~= seq![frontend, raft]);
}

/// Without server `own`, the servers in front of it keep their place and those behind it move up by one.
proof fn lemma_other_addrs(servers: Seq<ServerArgs>, own: int, n: int)
    requires
        0 <= own < servers.len(),
        0 <= n <= servers.len(),
    ensures
        other_addrs(servers, own, n).len() == if n <= own {
            n
        } else {
            n - 1
        },
        forall|j: int|
            0 <= j < n && j < own ==> other_addrs(servers, own, n)[j] == peer_addr(
                (#[trigger] servers[j]).raft_port,
            ),
        forall|j: int|
            own < j < n ==> other_addrs(servers, own, n)[j - 1] == peer_addr(
                (#[trigger] servers[j]).raft_port,
            ),
    decreases n,
{
    if n > 0 {
        lemma_other_addrs(servers, own, n - 1);
    }
}

/// The peers that a server reads from its argument are all the other servers at their raft ports, each
/// once and in order: those in front of it first, and behind them those that come after it.
pub proof fn law_servers_know_all_others(servers: Seq<ServerArgs>, own: int)
    requires
        0 <= own < servers.len(),
    ensures
        ({
            let peers = split_text(command_text(servers, own), ';').skip(1);
            &&& peers.len() == servers.len() - 1
            &&& forall|j: int|
                0 <= j < own ==> peers[j] == "http://[::1]:"@ + decimal_text(
                    (#[trigger] servers[j]).raft_port as nat,
                )
            &&& forall|j: int|
                own < j < servers.len() ==> peers[j - 1] == "http://[::1]:"@ + decimal_text(
                    (#[trigger] servers[j]).raft_port as nat,
                )
        }),
{
    law_servers_read_their_commands(servers, own);
    lemma_other_addrs(servers, own, servers.len() as int);
}

/// A server reads from its argument its own two ports, the one for clients first.
pub proof fn law_servers_know_their_ports(servers: Seq<ServerArgs>, own: int)
    requires
        0 <= own < servers.len(),
    ensures
        own_fields(command_text(servers, own)) == seq![
            "[::1]:"@ + decimal_text(servers[own].frontend_port as nat),
            "[::1]:"@ + decimal_text(servers[own].raft_port as nat),
        ],
{
    law_servers_read_their_commands(servers, own);
}

/// Each server is told where every other one serves its peers.
pub proof fn law_servers_find_each_other(servers: Seq<ServerArgs>, own: int, other: int)
    requires
        0 <= own < servers.len(),
        0 <= other < servers.len(),
        own != other,
    ensures
        split_text(command_text(servers, own), ';').skip(1).contains(
            "http://"@ + own_fields(command_text(servers, other))[1],
        ),
{
    law_servers_know_all_others(servers, own);
    law_servers_know_their_ports(servers, other);
    let peers = split_text(command_text(servers, own), ';').skip(1);
    let port = decimal_text(servers[other].raft_port as nat);
    reveal_strlit("http://");
    reveal_strlit("[::1]:");
    reveal_strlit("http://[::1]:");
    assert("http://"@ + ("[::1]:"@ + port) =~= "http://[::1]:"@ + port);
    if other < own {
        assert(peers[other] == "http://[::1]:"@ + decimal_text(servers[other].raft_port as nat));
    } else {
        assert(peers[other - 1] == "http://[::1]:"@ + decimal_text(
            servers[other].raft_port as nat,
        ));
    }
}

} // verus!
