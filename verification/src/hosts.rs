use vstd::prelude::*;
use vstd::string::StringExecFns;

use crate::error::Error;

verus! {

/// What this library reads out of one `Host` block of an SSH client config:
/// the ordered pattern tokens of the `Host` line and the `HostName` and
/// `User` directives, if present.
#[derive(Debug)]
pub struct RawHostBlock {
    pub patterns: Vec<String>,
    pub host_name: Option<String>,
    pub user: Option<String>,
}

/// The mathematical value of a raw host block.
#[verifier::ext_equal]
pub ghost struct RawHostBlockV {
    pub patterns: Seq<Seq<char>>,
    pub host_name: Option<Seq<char>>,
    pub user: Option<Seq<char>>,
}

impl View for RawHostBlock {
    type V = RawHostBlockV;

    open spec fn view(&self) -> RawHostBlockV {
        RawHostBlockV {
            patterns: self.patterns.deep_view(),
            host_name: self.host_name.deep_view(),
            user: self.user.deep_view(),
        }
    }
}

/// A host the user can pick: the alias it is selected and launched by, the
/// resolved `HostName` shown beside it, and the configured user, if any.
#[derive(Debug)]
pub struct HostEntry {
    pub name: String,
    pub host: String,
    pub user: Option<String>,
}

/// The mathematical value of a selectable host entry.
#[verifier::ext_equal]
pub ghost struct HostEntryV {
    pub name: Seq<char>,
    pub host: Seq<char>,
    pub user: Option<Seq<char>>,
}

impl View for HostEntry {
    type V = HostEntryV;

    open spec fn view(&self) -> HostEntryV {
        HostEntryV {
            name: self.name@,
            host: self.host@,
            user: self.user.deep_view(),
        }
    }
}

pub open spec fn blocks_view(bs: Seq<RawHostBlock>) -> Seq<RawHostBlockV> {
    bs.map_values(|b: RawHostBlock| b@)
}

pub open spec fn entries_view(es: Seq<HostEntry>) -> Seq<HostEntryV> {
    es.map_values(|e: HostEntry| e@)
}

/// Whether the filter keeps a raw host block: it must carry at least one
/// pattern token, its first token must be non-empty and not the catch-all
/// `"*"`, and its `HostName` must be present and non-empty.
pub open spec fn block_selected(b: RawHostBlockV) -> bool {
    &&& b.patterns.len() > 0
    &&& b.patterns[0].len() > 0
    &&& b.patterns[0] != "*"@
    &&& b.host_name matches Some(h) && h.len() > 0
}

/// The entry a selected block is mapped to: its first pattern token becomes
/// the alias, its `HostName` the displayed host, its `User` the user.
pub open spec fn entry_of(b: RawHostBlockV) -> HostEntryV
    recommends
        block_selected(b),
{
    HostEntryV { name: b.patterns[0], host: b.host_name->0, user: b.user }
}

/// What must hold of every entry surfaced to the user: a non-empty alias
/// that is not the catch-all pattern, and a non-empty resolved host.
pub open spec fn entry_wf(e: HostEntryV) -> bool {
    &&& e.name.len() > 0
    &&& e.name != "*"@
    &&& e.host.len() > 0
}

/// The filtered host list: the selected blocks, in source order, each mapped
/// to its entry.
pub open spec fn filtered_entries(bs: Seq<RawHostBlockV>) -> Seq<HostEntryV>
    decreases bs.len(),
{
    if bs.len() == 0 {
        Seq::empty()
    } else if block_selected(bs.last()) {
        filtered_entries(bs.drop_last()).push(entry_of(bs.last()))
    } else {
        filtered_entries(bs.drop_last())
    }
}

/// Filter and map the raw host blocks into the list offered for selection,
/// keeping the source order.
pub fn get_hosts(blocks: &Vec<RawHostBlock>) -> (r: Vec<HostEntry>)
    ensures
        entries_view(r@) == filtered_entries(blocks_view(blocks@)),
{
    let mut out: Vec<HostEntry> = Vec::new();
    let star: String = "*".to_owned();
    let mut i: usize = 0;
    while i < blocks.len()
        invariant
            i <= blocks.len(),
            star@ == "*"@,
            entries_view(out@) == filtered_entries(blocks_view(blocks@.take(i as int))),
        decreases blocks.len() - i,
    {
        let b = &blocks[i];
        if b.patterns.len() > 0 && !b.patterns[0].as_str().is_empty() && !(b.patterns[0] == star) {
            match &b.host_name {
                Some(h) => {
                    if !h.as_str().is_empty() {
                        let e = HostEntry {
                            name: b.patterns[0].clone(),
                            host: h.clone(),
                            user: b.user.clone(),
                        };
                        proof {
                            assert(entries_view(out@.push(e)) =~= entries_view(out@).push(e@));
                        }
                        out.push(e);
                    }
                },
                None => {},
            }
        }
        proof {
            let pre = blocks_view(blocks@.take(i as int));
            let cur = blocks_view(blocks@.take(i as int + 1));
            assert(cur.drop_last() =~= pre);
            assert(cur.last() == blocks@[i as int]@);
        }
        i += 1;
    }
    proof {
        assert(blocks@.take(blocks@.len() as int) =~= blocks@);
    }
    out
}

#[verifier::external_type_specification]
#[verifier::external_body]
pub struct ExSshParserError(ssh2_config::SshParserError);

/// Relies on `ssh2_config::SshConfig::parse` with `ParseRule::STRICT`: it
/// parses SSH client config text from a `BufRead` source, here a byte slice.
/// An `Include` directive makes it read further files from disk, so nothing
/// ties the outcome to the bytes alone; the contract states only what holds
/// of every outcome. The parser seeds the block list with a catch-all
/// `Host *` block before it reads a line, and only ever appends to the list,
/// so a successful parse yields at least that block, with the one pattern
/// token `"*"`. `get_hosts` hands the blocks out; their pattern tokens,
/// `HostName` and `User` are copied one for one.
#[verifier::external_body]
fn parse_blocks(bytes: &Vec<u8>) -> (r: Result<Vec<RawHostBlock>, ssh2_config::SshParserError>)
    ensures
        r matches Ok(v) ==> v@.len() >= 1 && v@[0]@.patterns.len() == 1 && v@[0]@.patterns[0]
            == "*"@,
{
    let mut reader = bytes.as_slice();
    let config = ssh2_config::SshConfig::default().parse(&mut reader, ssh2_config::ParseRule::STRICT)?;
    Ok(config.get_hosts().iter().map(|h| RawHostBlock {
        patterns: h.pattern.iter().map(|c| c.pattern.clone()).collect(),
        host_name: h.params.host_name.clone(),
        user: h.params.user.clone(),
    }).collect())
}

/// Parse SSH client config text and return the filtered host list: what
/// `get_hosts` makes of the blocks the parser returned, so the filter's
/// guarantees hold of it: every surfaced entry is well-formed, and the
/// list is some block sequence's filtered image. A file the parser rejects
/// yields the parse error.
pub fn parse_hosts(bytes: &Vec<u8>) -> (r: Result<Vec<HostEntry>, Error>)
    ensures
        r matches Ok(es) ==> exists|bs: Seq<RawHostBlockV>|
            entries_view(es@) == filtered_entries(bs),
        r matches Ok(es) ==> forall|k: int|
            0 <= k < es@.len() ==> entry_wf((#[trigger] es@[k])@),
        r matches Err(e) ==> e == Error::ConfigParseError,
{
    match parse_blocks(bytes) {
        Ok(blocks) => {
            let es = get_hosts(&blocks);
            proof {
                let bs = blocks_view(blocks@);
                assert(entries_view(es@) == filtered_entries(bs));
                lemma_filtered_entries_wf(bs);
                assert forall|k: int| 0 <= k < es@.len() implies entry_wf(
                    (#[trigger] es@[k])@,
                ) by {
                    assert(entries_view(es@)[k] == es@[k]@);
                }
            }
            Ok(es)
        },
        Err(_) => Err(Error::ConfigParseError),
    }
}

/// How one entry is rendered in the selection prompt: the alias, a space,
/// and the resolved host.
pub open spec fn spec_display_line(e: HostEntryV) -> Seq<char> {
    e.name + " "@ + e.host
}

impl HostEntry {
    /// The line shown for this entry in the selection prompt.
    pub fn display_line(&self) -> (r: String)
        ensures
            r@ == spec_display_line(self@),
    {
        let mut s = self.name.clone();
        s.append(" ");
        s.append(self.host.as_str());
        s
    }
}

/// Render the filtered host list for the selection prompt, one line per
/// entry, in order. An empty list fails fast with a descriptive error: this
/// library never offers a prompt with zero choices.
pub fn selection_items(hosts: &Vec<HostEntry>) -> (r: Result<Vec<String>, Error>)
    ensures
        r matches Ok(items) ==> hosts@.len() > 0 && items@.len() == hosts@.len() && forall|i: int|
            0 <= i < items@.len() ==> (#[trigger] items@[i])@ == spec_display_line(hosts@[i]@),
        r matches Err(e) ==> e == Error::NoHostsFound && hosts@.len() == 0,
        (r is Ok) == (hosts@.len() > 0),
{
    if hosts.len() == 0 {
        return Err(Error::NoHostsFound);
    }
    let mut items: Vec<String> = Vec::new();
    let mut i: usize = 0;
    while i < hosts.len()
        invariant
            i <= hosts.len(),
            items@.len() == i,
            forall|j: int|
                0 <= j < i ==> (#[trigger] items@[j])@ == spec_display_line(hosts@[j]@),
        decreases hosts.len() - i,
    {
        items.push(hosts[i].display_line());
        i += 1;
    }
    Ok(items)
}

/// Every entry the filter surfaces is well-formed, whatever the input
/// blocks hold: the invariant `entry_wf` holds of the whole filtered list.
pub proof fn lemma_filtered_entries_wf(bs: Seq<RawHostBlockV>)
    ensures
        forall|k: int|
            0 <= k < filtered_entries(bs).len() ==> entry_wf(#[trigger] filtered_entries(bs)[k]),
    decreases bs.len(),
{
    if bs.len() > 0 {
        let pre = bs.drop_last();
        lemma_filtered_entries_wf(pre);
        assert forall|k: int| 0 <= k < filtered_entries(bs).len() implies entry_wf(
            #[trigger] filtered_entries(bs)[k],
        ) by {
            if k < filtered_entries(pre).len() {
                assert(filtered_entries(bs)[k] == filtered_entries(pre)[k]);
            } else {
                assert(block_selected(bs.last()));
                assert(filtered_entries(bs)[k] == entry_of(bs.last()));
            }
        }
    }
}

/// A block the filter rejects contributes nothing: dropping it from the
/// input leaves the filtered host list unchanged.
proof fn lemma_unselected_contributes_nothing(bs: Seq<RawHostBlockV>, i: int)
    requires
        0 <= i < bs.len(),
        !block_selected(bs[i]),
    ensures
        filtered_entries(bs) == filtered_entries(bs.remove(i)),
    decreases bs.len(),
{
    if i == bs.len() - 1 {
        assert(bs.remove(i) =~= bs.drop_last());
    } else {
        lemma_unselected_contributes_nothing(bs.drop_last(), i);
        assert(bs.remove(i).drop_last() =~= bs.drop_last().remove(i));
        assert(bs.remove(i).last() == bs.last());
    }
}

/// A block whose first pattern token is the catch-all `"*"` is never
/// selected, and the entry it would map to never appears on its account:
/// dropping the block changes nothing in the filtered host list.
pub proof fn lemma_wildcard_block_excluded(bs: Seq<RawHostBlockV>, i: int)
    requires
        0 <= i < bs.len(),
        bs[i].patterns.len() > 0,
        bs[i].patterns[0] == "*"@,
    ensures
        !block_selected(bs[i]),
        filtered_entries(bs) == filtered_entries(bs.remove(i)),
{
    lemma_unselected_contributes_nothing(bs, i);
}

/// A block with no `HostName`, or an empty one, produces no entry: dropping
/// the block changes nothing in the filtered host list.
pub proof fn lemma_missing_hostname_block_excluded(bs: Seq<RawHostBlockV>, i: int)
    requires
        0 <= i < bs.len(),
        bs[i].host_name is None || bs[i].host_name->0.len() == 0,
    ensures
        !block_selected(bs[i]),
        filtered_entries(bs) == filtered_entries(bs.remove(i)),
{
    lemma_unselected_contributes_nothing(bs, i);
}

/// Every filtered entry is the image of some selected block of the input.
pub proof fn lemma_entries_come_from_selected_blocks(bs: Seq<RawHostBlockV>, k: int)
    requires
        0 <= k < filtered_entries(bs).len(),
    ensures
        exists|j: int|
            0 <= j < bs.len() && block_selected(bs[j]) && filtered_entries(bs)[k] == entry_of(
                bs[j],
            ),
    decreases bs.len(),
{
    let pre = bs.drop_last();
    if block_selected(bs.last()) && k == filtered_entries(pre).len() {
        assert(0 <= bs.len() - 1 < bs.len() && block_selected(bs[bs.len() - 1])
            && filtered_entries(bs)[k] == entry_of(bs[bs.len() - 1]));
    } else {
        lemma_entries_come_from_selected_blocks(pre, k);
        let j = choose|j: int|
            0 <= j < pre.len() && block_selected(pre[j]) && filtered_entries(pre)[k] == entry_of(
                pre[j],
            );
        assert(0 <= j < bs.len() && block_selected(bs[j]) && filtered_entries(bs)[k] == entry_of(
            bs[j],
        ));
    }
}

/// The positions, in source order, of the blocks the filter keeps.
pub open spec fn selected_indices(bs: Seq<RawHostBlockV>) -> Seq<int>
    decreases bs.len(),
{
    if bs.len() == 0 {
        Seq::empty()
    } else if block_selected(bs.last()) {
        selected_indices(bs.drop_last()).push(bs.len() - 1)
    } else {
        selected_indices(bs.drop_last())
    }
}

/// Order invariant of the filter: the k-th filtered entry is the image of
/// the k-th selected block, the source positions of those blocks are
/// strictly increasing, and every selected block's position occurs. So the
/// filtered host list preserves the relative order of the selected blocks,
/// with nothing duplicated, reordered or left out.
pub proof fn lemma_order_preserved(bs: Seq<RawHostBlockV>)
    ensures
        selected_indices(bs).len() == filtered_entries(bs).len(),
        forall|k: int|
            0 <= k < selected_indices(bs).len() ==> 0 <= #[trigger] selected_indices(bs)[k]
                < bs.len(),
        forall|k: int|
            0 <= k < selected_indices(bs).len() ==> block_selected(
                bs[#[trigger] selected_indices(bs)[k]],
            ),
        forall|k: int|
            0 <= k < selected_indices(bs).len() ==> filtered_entries(bs)[k] == entry_of(
                bs[#[trigger] selected_indices(bs)[k]],
            ),
        forall|k: int, l: int|
            0 <= k < l < selected_indices(bs).len() ==> #[trigger] selected_indices(bs)[k]
                < #[trigger] selected_indices(bs)[l],
        forall|j: int|
            0 <= j < bs.len() && block_selected(bs[j]) ==> selected_indices(bs).contains(j),
    decreases bs.len(),
{
    if bs.len() == 0 {
    } else {
        let pre = bs.drop_last();
        lemma_order_preserved(pre);
        assert(forall|j: int| 0 <= j < pre.len() ==> pre[j] == bs[j]);
        if block_selected(bs.last()) {
            assert(selected_indices(bs) == selected_indices(pre).push(bs.len() - 1));
            assert(filtered_entries(bs) == filtered_entries(pre).push(entry_of(bs.last())));
        }
        assert forall|j: int| 0 <= j < bs.len() && block_selected(bs[j]) implies selected_indices(
            bs,
        ).contains(j) by {
            if j < bs.len() - 1 {
                assert(selected_indices(pre).contains(j));
                let n = choose|n: int|
                    0 <= n < selected_indices(pre).len() && selected_indices(pre)[n] == j;
                assert(selected_indices(bs)[n] == j);
            } else {
                assert(selected_indices(bs).last() == j);
            }
        }
    }
}

} // verus!
