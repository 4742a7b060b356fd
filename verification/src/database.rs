//! The arguments with which a node is started.

use vstd::prelude::*;

use crate::text::{
    join_text, law_joined_parts_split_again, split, split_text, texts,
};

verus! {

/// How to reach a peer.
#[derive(Debug)]
pub struct PeerArgs {
    pub addr: String,
}

/// The addresses of a list of peers.
pub open spec fn peer_texts(peers: Seq<PeerArgs>) -> Seq<Seq<char>> {
    peers.map_values(|peer: PeerArgs| peer.addr@)
}

/// The arguments of a node. `A` is an address that can be listened at.
#[derive(Debug)]
pub struct NodeArgs<A> {
    /// Where the node serves its clients.
    pub frontend_addr: String,
    /// Where the node serves its peers.
    pub raft_addr: A,
    /// The other nodes.
    pub peer_args: Vec<PeerArgs>,
}

/// Why the arguments of a node cannot be read. `E` is why a text is no address.
#[derive(Debug)]
pub enum ArgsError<E> {
    Missing(String),
    InvalidAddr(E),
}

/// The address that the node serves its clients at, the one that it serves its peers at, and
/// whatever else stands between commas in front of the first semicolon.
pub open spec fn own_fields(arg: Seq<char>) -> Seq<Seq<char>> {
    split_text(split_text(arg, ';')[0], ',')
}

/// Whether `parse` gives `result` for a text.
pub open spec fn parses_to<A, E, F: Fn(String) -> Result<A, E>>(
    parse: F,
    text: Seq<char>,
    result: Result<A, E>,
) -> bool {
    exists|argument: String|
        argument@ == text && #[trigger] call_ensures(parse, (argument,), result)
}

/// Reads the arguments of a node: its two addresses with a comma between them, and behind
/// each semicolon the address of a peer. Further fields of the node itself are ignored.
///
/// `parse` reads the address at which the node serves its peers. What it does not take is
/// an error; the other addresses stay texts.
pub fn generate_args<A, E, F: Fn(String) -> Result<A, E>>(arg: &str, parse: F) -> (result: Result<
    NodeArgs<A>,
    ArgsError<E>,
>)
    requires
        forall|text: String| call_requires(parse, (text,)),
    ensures
        match result {
            Ok(args) => {
                &&& own_fields(arg@).len() >= 2
                &&& args.frontend_addr@ == own_fields(arg@)[0]
                &&& parses_to(parse, own_fields(arg@)[1], Ok(args.raft_addr))
                &&& peer_texts(args.peer_args@) == split_text(arg@, ';').skip(1)
            },
            Err(ArgsError::InvalidAddr(error)) => {
                &&& own_fields(arg@).len() >= 2
                &&& parses_to(parse, own_fields(arg@)[1], Err(error))
            },
            Err(ArgsError::Missing(message)) => {
                &&& own_fields(arg@).len() < 2
                &&& message@ == "Did not have raft addr"@
            },
        },
{
    let parts = split(arg, ';');
    let ghost all = split_text(arg@, ';');
    assert(texts(parts@)[0] == all[0]);
    let fields = split(parts[0].as_str(), ',');
    assert(texts(fields@).len() == fields@.len());
    if fields.len() < 2 {
        return Err(ArgsError::Missing("Did not have raft addr".to_owned()));
    }
    assert(texts(fields@)[0] == own_fields(arg@)[0]);
    assert(texts(fields@)[1] == own_fields(arg@)[1]);
    let raft_addr = match parse(fields[1].clone()) {
        Ok(raft_addr) => raft_addr,
        Err(error) => {
            return Err(ArgsError::InvalidAddr(error));
        },
    };
    let mut peer_args: Vec<PeerArgs> = Vec::new();
    let mut i: usize = 1;
    while i < parts.len()
        invariant
            1 <= i <= parts@.len(),
            all == texts(parts@),
            peer_texts(peer_args@) == all.subrange(1, i as int),
        decreases parts.len() - i,
    {
        let ghost before = peer_args@;
        peer_args.push(PeerArgs { addr: parts[i].clone() });
        i = i + 1;
        assert(peer_texts(peer_args@) =~= peer_texts(before).push(all[i - 1]));
        assert(all.subrange(1, i as int) =~= all.subrange(1, i - 1).push(all[i - 1]));
    }
    assert(all.subrange(1, i as int) =~= all.skip(1));
    Ok(NodeArgs { frontend_addr: fields[0].clone(), raft_addr, peer_args })
}

/// The addresses of peers are those that their arguments hold, in order.
pub proof fn law_peers_keep_their_addresses(peers: Seq<PeerArgs>, i: int)
    requires
        0 <= i < peers.len(),
    ensures
        peer_texts(peers).len() == peers.len(),
        peer_texts(peers)[i] == peers[i].addr@,
{
}

/// Fields with commas between them, and peers behind a semicolon each, are read back as they were.
pub proof fn law_arguments_read_back(fields: Seq<Seq<char>>, peers: Seq<Seq<char>>)
    requires
        fields.len() > 0,
        forall|i: int|
            0 <= i < fields.len() ==> !(#[trigger] fields[i]).contains(',')
                && !fields[i].contains(';'),
        forall|i: int| 0 <= i < peers.len() ==> !(#[trigger] peers[i]).contains(';'),
    ensures
        ({
            let arg = join_text(seq![join_text(fields, seq![','])] + peers, seq![';']);
            own_fields(arg) == fields && split_text(arg, ';').skip(1) == peers
        }),
{
    let own = join_text(fields, seq![',']);
    let parts = seq![own] + peers;
    lemma_joined_stays_plain(fields, ',', ';');
    assert forall|i: int| 0 <= i < parts.len() implies !(#[trigger] parts[i]).contains(';') by {
        if i > 0 {
            assert(parts[i] == peers[i - 1]);
        }
    }
    law_joined_parts_split_again(parts, ';');
    law_joined_parts_split_again(fields, ',');
    assert(parts.skip(1) =~= peers);
}

/// Parts without a character, joined by another, do not hold that character.
proof fn lemma_joined_stays_plain(parts: Seq<Seq<char>>, separator: char, other: char)
    requires
        parts.len() > 0,
        separator != other,
        forall|i: int| 0 <= i < parts.len() ==> !(#[trigger] parts[i]).contains(other),
    ensures
        !join_text(parts, seq![separator]).contains(other),
    decreases parts.len(),
{
    if parts.len() > 1 {
        let front = parts.drop_last();
        assert forall|i: int| 0 <= i < front.len() implies !(#[trigger] front[i]).contains(
            other,
        ) by {
            assert(front[i] == parts[i]);
        }
        lemma_joined_stays_plain(front, separator, other);
        let start = join_text(front, seq![separator]);
        let all = join_text(parts, seq![separator]);
        assert(all == start + seq![separator] + parts.last());
        assert forall|j: int| 0 <= j < all.len() implies all[j] != other by {
            if j < start.len() {
                assert(start.contains(start[j]));
            } else if j > start.len() {
                let last = parts[parts.len() - 1];
                assert(last.contains(last[j - start.len() - 1]));
            }
        }
    } else {
        assert(!parts[0].contains(other));
    }
}

/// Where a parser gives one result for a text, that is what the text is read as.
pub proof fn law_parsers_decide<A, E, F: Fn(String) -> Result<A, E>>(
    parse: F,
    text: Seq<char>,
    expected: Result<A, E>,
    result: Result<A, E>,
)
    requires
        forall|argument: String, given: Result<A, E>|
            argument@ == text && call_ensures(parse, (argument,), given) ==> given == expected,
        parses_to(parse, text, result),
    ensures
        result == expected,
{
}

} // verus!
