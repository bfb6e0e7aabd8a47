//! The filter on a worker's terminal output: bytes are relayed to clients
//! as they arrive, while `REMERGE_EVENT:` control lines are taken out at
//! the start of a line and handed over whole, and complete output lines are
//! handed over for the emerge-output patterns.
//!
//! The filter keeps its state between chunks. Its output is described per
//! byte by [`step`]; what a chunk forwards is exactly the bytes resolved in
//! it, so control lines are consumed without forwarding wherever the chunks
//! end (see [`feed_outcome`]).
use vstd::prelude::*;

verus! {

/// The byte that ends a line.
pub const NEWLINE: u8 = 10;

/// The carriage return, which also ends a line for the prefix check.
pub const CARRIAGE_RETURN: u8 = 13;

/// Longest control line kept before it is dropped as runaway.
pub const MAX_CONTROL_LINE_BYTES: usize = 262144;

/// The bytes of `REMERGE_EVENT:`.
pub open spec fn remerge_prefix() -> Seq<u8> {
    seq![82u8, 69u8, 77u8, 69u8, 82u8, 71u8, 69u8, 95u8, 69u8, 86u8, 69u8, 78u8, 84u8, 58u8]
}

fn remerge_prefix_vec() -> (r: Vec<u8>)
    ensures
        r@ == remerge_prefix(),
{
    let mut v: Vec<u8> = Vec::new();
    v.push(82);
    v.push(69);
    v.push(77);
    v.push(69);
    v.push(82);
    v.push(71);
    v.push(69);
    v.push(95);
    v.push(69);
    v.push(86);
    v.push(69);
    v.push(78);
    v.push(84);
    v.push(58);
    assert(v@ =~= remerge_prefix());
    v
}

/// The state of the filter between bytes.
pub struct PtyModel {
    /// The next byte begins a line.
    pub at_line_start: bool,
    /// Leading bytes of the current line while they may still begin
    /// `REMERGE_EVENT:`.
    pub prefix: Seq<u8>,
    /// Inside a control line.
    pub skip: bool,
    /// The control line read so far.
    pub event: Seq<u8>,
    /// The current output line, for the emerge-output patterns.
    pub pattern: Seq<u8>,
}

/// What a byte hands over besides relayed bytes: `(true, line)` for a
/// complete control line, `(false, line)` for a complete output line.
pub type ItemModel = (bool, Seq<u8>);

/// One byte through the filter: the new state, the bytes it resolves for
/// the relay, and what it hands over.
/// - inside a control line, bytes are kept; a newline hands the line over,
///   and a line longer than the limit is dropped;
/// - at the start of a line, bytes are held while they agree with
///   `REMERGE_EVENT:`; a line end hands them over as a line and releases
///   them; a disagreeing byte releases them and the line passes through;
///   the whole prefix starts a control line and is never released;
/// - elsewhere bytes pass through; a newline hands the line over, a
///   carriage return starts a new line.
pub open spec fn step(m: PtyModel, b: u8) -> (PtyModel, Seq<u8>, Option<ItemModel>) {
    if m.skip {
        let ev = m.event.push(b);
        if b == NEWLINE {
            (PtyModel { skip: false, at_line_start: true, event: Seq::empty(), ..m }, Seq::empty(), Some((true, ev)))
        } else if ev.len() > MAX_CONTROL_LINE_BYTES {
            (PtyModel { skip: false, at_line_start: true, event: Seq::empty(), ..m }, Seq::empty(), None)
        } else {
            (PtyModel { event: ev, ..m }, Seq::empty(), None)
        }
    } else if m.at_line_start {
        let p = m.prefix.push(b);
        if b == NEWLINE || b == CARRIAGE_RETURN {
            (PtyModel { prefix: Seq::empty(), pattern: Seq::empty(), ..m }, p, Some((false, m.pattern + p)))
        } else if p != remerge_prefix().take(p.len() as int) {
            (PtyModel { prefix: Seq::empty(), at_line_start: false, pattern: m.pattern + p, ..m }, p, None)
        } else if p.len() == remerge_prefix().len() {
            (
                PtyModel {
                    prefix: Seq::empty(),
                    at_line_start: false,
                    skip: true,
                    event: remerge_prefix(),
                    pattern: Seq::empty(),
                    ..m
                },
                Seq::empty(),
                None,
            )
        } else {
            (PtyModel { prefix: p, ..m }, Seq::empty(), None)
        }
    } else {
        let pat = m.pattern.push(b);
        if b == NEWLINE {
            (PtyModel { pattern: Seq::empty(), at_line_start: true, ..m }, seq![b], Some((false, pat)))
        } else if b == CARRIAGE_RETURN {
            (PtyModel { pattern: Seq::empty(), at_line_start: true, ..m }, seq![b], None)
        } else {
            (PtyModel { pattern: pat, ..m }, seq![b], None)
        }
    }
}

/// The filter state with what one chunk has produced so far, and where the
/// relay of the chunk had last caught up (`clean`), whether the relay had to
/// assemble its output (`assembled`), and whether the held prefix began in
/// an earlier chunk (`carried`).
pub struct ChunkFold {
    pub m: PtyModel,
    pub clean: int,
    pub assembled: bool,
    pub carried: bool,
    pub emitted: Seq<u8>,
    pub items: Seq<ItemModel>,
}

/// How the relay's bookkeeping moves when byte `i` of the chunk is read.
pub open spec fn fold_step(f: ChunkFold, b: u8, i: int) -> ChunkFold {
    let (m2, out, item) = step(f.m, b);
    let items = match item {
        Some(x) => f.items.push(x),
        None => f.items,
    };
    let base = ChunkFold { m: m2, emitted: f.emitted + out, items, ..f };
    if f.m.skip {
        if !m2.skip {
            ChunkFold { clean: i + 1, ..base }
        } else {
            base
        }
    } else if f.m.at_line_start {
        if b == NEWLINE || b == CARRIAGE_RETURN {
            if f.carried || f.assembled {
                ChunkFold { clean: i + 1, assembled: true, carried: false, ..base }
            } else {
                ChunkFold { carried: false, ..base }
            }
        } else if !m2.at_line_start && !m2.skip {
            if f.carried {
                ChunkFold { clean: 0, assembled: true, carried: false, ..base }
            } else {
                ChunkFold { carried: false, ..base }
            }
        } else if m2.skip {
            ChunkFold { assembled: true, carried: false, ..base }
        } else {
            base
        }
    } else {
        base
    }
}

/// The chunk read up to byte `n`.
pub open spec fn fold_chunk(m: PtyModel, chunk: Seq<u8>, n: int) -> ChunkFold
    decreases n,
{
    if n <= 0 {
        ChunkFold {
            m,
            clean: 0,
            assembled: m.skip,
            carried: !m.skip && m.at_line_start && m.prefix.len() > 0,
            emitted: Seq::empty(),
            items: Seq::empty(),
        }
    } else {
        fold_step(fold_chunk(m, chunk, n - 1), chunk[n - 1], n - 1)
    }
}

/// What a chunk produces: the state after it, the bytes relayed (those the
/// chunk resolves, each once), and what it hands over.
pub open spec fn feed_outcome(m: PtyModel, chunk: Seq<u8>) -> (PtyModel, Seq<u8>, Seq<ItemModel>) {
    let f = fold_chunk(m, chunk, chunk.len() as int);
    (f.m, f.emitted, f.items)
}

/// The per-byte run of the filter over a stream: the state after it, the
/// bytes it resolves, and what it hands over.
pub open spec fn run(m: PtyModel, s: Seq<u8>) -> (PtyModel, Seq<u8>, Seq<ItemModel>)
    decreases s.len(),
{
    if s.len() == 0 {
        (m, Seq::empty(), Seq::empty())
    } else {
        let (m1, out1, items1) = run(m, s.drop_last());
        let (m2, out2, item) = step(m1, s.last());
        (m2, out1 + out2, match item {
            Some(x) => items1.push(x),
            None => items1,
        })
    }
}

/// A complete line handed over by the filter.
#[derive(Debug, Clone, PartialEq, Eq)]
pub enum PtyItem {
    /// A `REMERGE_EVENT:` control line, prefix and newline included.
    Control(Vec<u8>),
    /// An output line for the emerge-output patterns, with its line end.
    Line(Vec<u8>),
}

pub open spec fn item_view(i: PtyItem) -> ItemModel {
    match i {
        PtyItem::Control(v) => (true, v@),
        PtyItem::Line(v) => (false, v@),
    }
}

/// What one chunk produced.
#[derive(Debug, Clone, PartialEq, Eq)]
pub struct PtyFeed {
    /// The bytes to relay to clients.
    pub forward: Vec<u8>,
    /// The complete lines, in stream order.
    pub items: Vec<PtyItem>,
}


pub open spec fn fw_view(fw: Option<Vec<u8>>) -> Option<Seq<u8>> {
    match fw {
        Some(v) => Some(v@),
        None => None,
    }
}

pub open spec fn items_view(v: Seq<PtyItem>) -> Seq<ItemModel> {
    v.map_values(|i: PtyItem| item_view(i))
}

/// What the relay's working state says after `bi` bytes of the chunk:
/// it agrees with the fold of the chunk.
pub open spec fn chunk_inv(
    m0: PtyModel,
    bytes: Seq<u8>,
    bi: int,
    m: PtyModel,
    clean: int,
    fw: Option<Seq<u8>>,
    pcs: int,
    items: Seq<ItemModel>,
) -> bool {
    let f = fold_chunk(m0, bytes, bi);
    let pending = m.at_line_start && !m.skip && m.prefix.len() > 0;
    &&& 0 <= bi <= bytes.len()
    &&& model_wf(m)
    &&& m == f.m
    &&& clean == f.clean
    &&& fw.is_some() == f.assembled
    &&& items == f.items
    &&& 0 <= clean <= bi
    &&& (f.carried ==> pending && pcs == 0 && m.prefix == m0.prefix + bytes.subrange(0, bi) && m0.prefix.len() > 0
        && !f.assembled && f.emitted.len() == 0)
    &&& (pending && !f.carried ==> 0 <= pcs <= bi && clean <= pcs && m.prefix == bytes.subrange(pcs, bi))
    &&& (!f.assembled ==> clean == 0 && !m.skip)
    &&& (m.skip ==> f.assembled)
    &&& (!f.assembled && !pending ==> f.emitted == bytes.subrange(0, bi))
    &&& (!f.assembled && pending && !f.carried ==> f.emitted == bytes.subrange(0, pcs))
    &&& (f.assembled && m.skip ==> f.emitted == fw->0)
    &&& (f.assembled && !m.skip && pending ==> f.emitted == fw->0 + bytes.subrange(clean, pcs))
    &&& (f.assembled && !m.skip && !pending ==> f.emitted == fw->0 + bytes.subrange(clean, bi))
}


proof fn lemma_inv_intro(
    m0: PtyModel,
    bytes: Seq<u8>,
    bi: int,
    m: PtyModel,
    clean: int,
    fw: Option<Seq<u8>>,
    pcs: int,
    items: Seq<ItemModel>,
    f: ChunkFold,
)
    requires
        f == fold_chunk(m0, bytes, bi),
        0 <= bi <= bytes.len(),
        model_wf(m),
        m == f.m,
        clean == f.clean,
        fw.is_some() == f.assembled,
        items == f.items,
        0 <= clean <= bi,
        f.carried ==> m.at_line_start && !m.skip && m.prefix.len() > 0,
        f.carried ==> pcs == 0 && m.prefix == m0.prefix + bytes.subrange(0, bi),
        f.carried ==> m0.prefix.len() > 0 && !f.assembled && f.emitted.len() == 0,
        (m.at_line_start && !m.skip && m.prefix.len() > 0) && !f.carried ==> 0 <= pcs <= bi && clean <= pcs,
        (m.at_line_start && !m.skip && m.prefix.len() > 0) && !f.carried ==> m.prefix == bytes.subrange(pcs, bi),
        !f.assembled ==> clean == 0 && !m.skip,
        m.skip ==> f.assembled,
        !f.assembled && !(m.at_line_start && !m.skip && m.prefix.len() > 0) ==> f.emitted == bytes.subrange(0, bi),
        !f.assembled && (m.at_line_start && !m.skip && m.prefix.len() > 0) && !f.carried ==> f.emitted == bytes.subrange(0, pcs),
        f.assembled && m.skip ==> f.emitted == fw->0,
        f.assembled && !m.skip && (m.at_line_start && !m.skip && m.prefix.len() > 0) ==> f.emitted == fw->0 + bytes.subrange(clean, pcs),
        f.assembled && !m.skip && !(m.at_line_start && !m.skip && m.prefix.len() > 0) ==> f.emitted == fw->0 + bytes.subrange(clean, bi),
    ensures
        chunk_inv(m0, bytes, bi, m, clean, fw, pcs, items),
{
}

/// The relay's working state within one chunk.
pub struct Relay {
    fw: Option<Vec<u8>>,
    clean: usize,
    pcs: usize,
    items: Vec<PtyItem>,
}

/// The output filter of one build.
#[derive(Debug)]
pub struct PtyFilter {
    at_line_start: bool,
    prefix_buf: Vec<u8>,
    skip_line: bool,
    event_line_buf: Vec<u8>,
    pattern_buf: Vec<u8>,
}

/// A state the filter can be in: a held prefix agrees with
/// `REMERGE_EVENT:` and is shorter than it, and only at a line start.
pub open spec fn model_wf(m: PtyModel) -> bool {
    &&& m.prefix.len() < remerge_prefix().len()
    &&& m.prefix == remerge_prefix().take(m.prefix.len() as int)
    &&& (m.prefix.len() > 0 ==> m.at_line_start && !m.skip)
    &&& m.event.len() <= MAX_CONTROL_LINE_BYTES
    &&& (m.skip ==> m.at_line_start == false && m.event.len() >= remerge_prefix().len())
    &&& (!m.skip ==> m.event.len() == 0)
    &&& (m.at_line_start || m.skip ==> m.pattern.len() == 0)
}

fn extend_range(dst: &mut Vec<u8>, src: &[u8], a: usize, b: usize)
    requires
        a <= b <= src.len(),
    ensures
        final(dst)@ == old(dst)@ + src@.subrange(a as int, b as int),
{
    let mut k = a;
    while k < b
        invariant
            a <= k <= b,
            b <= src.len(),
            dst@ == old(dst)@ + src@.subrange(a as int, k as int),
        decreases b - k,
    {
        dst.push(src[k]);
        assert(dst@ =~= old(dst)@ + src@.subrange(a as int, k + 1));
        k += 1;
    }
}

impl PtyFilter {
    pub closed spec fn model(&self) -> PtyModel {
        PtyModel {
            at_line_start: self.at_line_start,
            prefix: self.prefix_buf@,
            skip: self.skip_line,
            event: self.event_line_buf@,
            pattern: self.pattern_buf@,
        }
    }

    pub open spec fn wf(&self) -> bool {
        model_wf(self.model())
    }

    /// A filter at the start of the stream.
    pub fn new() -> (r: Self)
        ensures
            r.wf(),
            r.model() == (PtyModel {
                at_line_start: true,
                prefix: Seq::empty(),
                skip: false,
                event: Seq::empty(),
                pattern: Seq::empty(),
            }),
    {
        let r = PtyFilter {
            at_line_start: true,
            prefix_buf: Vec::new(),
            skip_line: false,
            event_line_buf: Vec::new(),
            pattern_buf: Vec::new(),
        };
        assert(r.prefix_buf@ =~= remerge_prefix().take(0));
        r
    }

    /// The relay's bookkeeping agrees with the fold of the chunk after
    /// `bi` bytes.
    pub closed spec fn relay_inv(&self, m0: PtyModel, bytes: Seq<u8>, bi: int, r: &Relay) -> bool {
        chunk_inv(
            m0,
            bytes,
            bi,
            self.model(),
            r.clean as int,
            fw_view(r.fw),
            r.pcs as int,
            items_view(r.items@),
        )
    }

    /// A byte inside a control line.
    fn skip_byte(&mut self, relay: &mut Relay, bytes: &[u8], bi: usize, Ghost(m0): Ghost<PtyModel>)
        requires
            bi < bytes.len(),
            old(self).skip_line,
            old(self).relay_inv(m0, bytes@, bi as int, old(relay)),
        ensures
            final(self).relay_inv(m0, bytes@, bi + 1, final(relay)),
    {
        let b = bytes[bi];
        let ghost f0 = fold_chunk(m0, bytes@, bi as int);
        let ghost f1 = fold_step(f0, b, bi as int);
        assert(fold_chunk(m0, bytes@, bi + 1) == f1);
        let ghost items0 = relay.items@;
        self.event_line_buf.push(b);
        if b == NEWLINE {
            let mut line: Vec<u8> = Vec::new();
            std::mem::swap(&mut line, &mut self.event_line_buf);
            let item = PtyItem::Control(line);
            relay.items.push(item);
            assert(items_view(relay.items@) =~= items_view(items0).push(item_view(item)));
            self.skip_line = false;
            self.at_line_start = true;
            relay.clean = bi + 1;
        } else if self.event_line_buf.len() > MAX_CONTROL_LINE_BYTES {
            self.event_line_buf = Vec::new();
            self.skip_line = false;
            self.at_line_start = true;
            relay.clean = bi + 1;
        }
        proof {
            assert(self.event_line_buf@ =~= f1.m.event);
            assert(self.model() == f1.m);
            assert(items_view(relay.items@) =~= f1.items);
            assert(bytes@.subrange(bi + 1, bi + 1) =~= Seq::<u8>::empty());
        }
    }

    /// A byte after the start of an ordinary line.
    fn passthrough_byte(
        &mut self,
        relay: &mut Relay,
        bytes: &[u8],
        bi: usize,
        Ghost(m0): Ghost<PtyModel>,
    )
        requires
            bi < bytes.len(),
            !old(self).skip_line,
            !old(self).at_line_start,
            old(self).relay_inv(m0, bytes@, bi as int, old(relay)),
        ensures
            final(self).relay_inv(m0, bytes@, bi + 1, final(relay)),
    {
        let b = bytes[bi];
        let ghost f0 = fold_chunk(m0, bytes@, bi as int);
        let ghost f1 = fold_step(f0, b, bi as int);
        assert(fold_chunk(m0, bytes@, bi + 1) == f1);
        let ghost items0 = relay.items@;
        self.pattern_buf.push(b);
        if b == NEWLINE || b == CARRIAGE_RETURN {
            let mut line: Vec<u8> = Vec::new();
            std::mem::swap(&mut line, &mut self.pattern_buf);
            self.at_line_start = true;
            if b == NEWLINE {
                let item = PtyItem::Line(line);
                relay.items.push(item);
                assert(items_view(relay.items@) =~= items_view(items0).push(item_view(item)));
            }
        }
        proof {
            assert(self.pattern_buf@ =~= f1.m.pattern);
            assert(self.model() == f1.m);
            assert(items_view(relay.items@) =~= f1.items);
            assert(f1.emitted =~= f0.emitted.push(b));
            assert(f1.clean == f0.clean);
            assert(f1.assembled == f0.assembled);
            assert(!f1.carried);
            assert(bytes@.subrange(0, bi + 1) =~= bytes@.subrange(0, bi as int).push(b));
            assert(bytes@.subrange(relay.clean as int, bi + 1) =~= bytes@.subrange(
                relay.clean as int,
                bi as int,
            ).push(b));
        }
    }

    /// The prefix held after byte `bi` joins it, and where it began: in an
    /// earlier chunk (`carried`) or at `pcs`.
    proof fn lemma_held_prefix(
        m0: PtyModel,
        bytes: Seq<u8>,
        bi: int,
        p0: Seq<u8>,
        pcs: int,
        carried: bool,
    )
        requires
            0 <= bi < bytes.len(),
            carried ==> p0 == m0.prefix + bytes.subrange(0, bi) && pcs == 0,
            !carried ==> 0 <= pcs <= bi && p0 == bytes.subrange(pcs, bi),
        ensures
            carried ==> p0.push(bytes[bi]) == m0.prefix + bytes.subrange(0, bi + 1),
            !carried ==> p0.push(bytes[bi]) == bytes.subrange(pcs, bi + 1),
    {
        if carried {
            assert(p0.push(bytes[bi]) =~= m0.prefix + bytes.subrange(0, bi + 1));
        } else {
            assert(p0.push(bytes[bi]) =~= bytes.subrange(pcs, bi + 1));
        }
    }

    /// A line end at the start of a line: the held bytes and the line end
    /// are released and handed over as a line.
    fn start_line_end(&mut self, relay: &mut Relay, bytes: &[u8], bi: usize, Ghost(m0): Ghost<PtyModel>)
        requires
            bi < bytes.len(),
            bytes@[bi as int] == NEWLINE || bytes@[bi as int] == CARRIAGE_RETURN,
            !old(self).skip_line,
            old(self).at_line_start,
            old(self).relay_inv(m0, bytes@, bi as int, old(relay)),
        ensures
            final(self).relay_inv(m0, bytes@, bi + 1, final(relay)),
    {
        let b = bytes[bi];
        let ghost f0 = fold_chunk(m0, bytes@, bi as int);
        let ghost f1 = fold_step(f0, b, bi as int);
        assert(fold_chunk(m0, bytes@, bi + 1) == f1);
        let ghost items0 = relay.items@;
        let ghost clean0 = relay.clean as int;
        let ghost fw0 = fw_view(relay.fw);
        if self.prefix_buf.len() == 0 {
            relay.pcs = bi;
        }
        let ghost pcs = relay.pcs as int;
        proof {
            if self.prefix_buf@.len() == 0 {
                assert(bytes@.subrange(bi as int, bi as int) =~= self.prefix_buf@);
            }
            Self::lemma_held_prefix(m0, bytes@, bi as int, self.prefix_buf@, pcs, f0.carried);
        }
        self.prefix_buf.push(b);
        let n = self.prefix_buf.len();
        let prev_in_pfx = n - (bi + 1 - relay.pcs);
        let ghost p = self.prefix_buf@;
        if prev_in_pfx > 0 {
            let mut fw = match relay.fw.take() {
                Some(v) => v,
                None => Vec::new(),
            };
            extend_range(&mut fw, bytes, relay.clean, relay.pcs);
            extend_range(&mut fw, self.prefix_buf.as_slice(), 0, prev_in_pfx);
            relay.fw = Some(fw);
            relay.clean = relay.pcs;
        }
        match relay.fw.take() {
            Some(mut fw) => {
                extend_range(&mut fw, bytes, relay.clean, bi + 1);
                relay.fw = Some(fw);
                relay.clean = bi + 1;
            },
            None => {},
        }
        let mut line: Vec<u8> = Vec::new();
        std::mem::swap(&mut line, &mut self.prefix_buf);
        self.pattern_buf = Vec::new();
        let item = PtyItem::Line(line);
        relay.items.push(item);
        proof {
            assert(items_view(relay.items@) =~= items_view(items0).push(item_view(item)));
            assert(f0.m.pattern + p =~= p);
            assert(bytes@.subrange(bi + 1, bi + 1) =~= Seq::<u8>::empty());
            assert(self.prefix_buf@ =~= f1.m.prefix);
            assert(self.pattern_buf@ =~= f1.m.pattern);
            assert(self.model() == f1.m);
            assert(items_view(relay.items@) =~= f1.items);
            assert(f1.emitted == f0.emitted + p);
            if f0.carried {
                assert(p.subrange(0, prev_in_pfx as int) =~= m0.prefix);
                assert(bytes@.subrange(0, 0) =~= Seq::<u8>::empty());
                assert(m0.prefix + bytes@.subrange(0, bi + 1) =~= p);
                assert(f0.emitted =~= Seq::<u8>::empty());
                assert(f1.emitted =~= p);
            } else {
                assert(bytes@.subrange(0, pcs) + p =~= bytes@.subrange(0, bi + 1));
                assert(bytes@.subrange(clean0, pcs) + p =~= bytes@.subrange(clean0, bi + 1));
                if f0.assembled {
                    let fw0v = fw0->0;
                    assert(f0.emitted == fw0v + bytes@.subrange(clean0, pcs));
                    assert(f1.emitted =~= fw0v + bytes@.subrange(clean0, bi + 1));
                } else {
                    assert(f0.emitted == bytes@.subrange(0, pcs));
                    assert(f1.emitted =~= bytes@.subrange(0, bi + 1));
                }
            }
        }
        proof {
            assert(remerge_prefix().take(0) =~= Seq::<u8>::empty());
            lemma_inv_intro(
                m0,
                bytes@,
                bi + 1,
                self.model(),
                relay.clean as int,
                fw_view(relay.fw),
                relay.pcs as int,
                items_view(relay.items@),
                f1,
            );
        }
    }

    /// A byte at the start of a line that disagrees with the prefix: the
    /// held bytes are released and the line passes through.
    fn start_mismatch(&mut self, relay: &mut Relay, bytes: &[u8], bi: usize, Ghost(m0): Ghost<PtyModel>)
        requires
            bi < bytes.len(),
            bytes@[bi as int] != NEWLINE && bytes@[bi as int] != CARRIAGE_RETURN,
            !old(self).skip_line,
            old(self).at_line_start,
            old(self).relay_inv(m0, bytes@, bi as int, old(relay)),
            bytes@[bi as int] != remerge_prefix()[old(self).prefix_buf@.len() as int],
        ensures
            final(self).relay_inv(m0, bytes@, bi + 1, final(relay)),
    {
        let b = bytes[bi];
        let ghost f0 = fold_chunk(m0, bytes@, bi as int);
        let ghost f1 = fold_step(f0, b, bi as int);
        assert(fold_chunk(m0, bytes@, bi + 1) == f1);
        let ghost clean0 = relay.clean as int;
        let ghost fw0 = fw_view(relay.fw);
        if self.prefix_buf.len() == 0 {
            relay.pcs = bi;
        }
        let ghost pcs = relay.pcs as int;
        proof {
            if self.prefix_buf@.len() == 0 {
                assert(bytes@.subrange(bi as int, bi as int) =~= self.prefix_buf@);
            }
            Self::lemma_held_prefix(m0, bytes@, bi as int, self.prefix_buf@, pcs, f0.carried);
        }
        self.prefix_buf.push(b);
        let n = self.prefix_buf.len();
        let prev_in_pfx = n - (bi + 1 - relay.pcs);
        let ghost p = self.prefix_buf@;
        assert(p[n - 1] != remerge_prefix().take(n as int)[n - 1]);
        if prev_in_pfx > 0 {
            let mut fw = match relay.fw.take() {
                Some(v) => v,
                None => Vec::new(),
            };
            extend_range(&mut fw, bytes, relay.clean, relay.pcs);
            extend_range(&mut fw, self.prefix_buf.as_slice(), 0, prev_in_pfx);
            relay.fw = Some(fw);
            relay.clean = relay.pcs;
        }
        let mut held: Vec<u8> = Vec::new();
        std::mem::swap(&mut held, &mut self.prefix_buf);
        self.pattern_buf = held;
        self.at_line_start = false;
        proof {
            assert(f0.m.pattern + p =~= p);
            assert(self.prefix_buf@ =~= f1.m.prefix);
            assert(self.pattern_buf@ =~= f1.m.pattern);
            assert(self.model() == f1.m);
            assert(f1.emitted == f0.emitted + p);
            if f0.carried {
                assert(p.subrange(0, prev_in_pfx as int) =~= m0.prefix);
                assert(bytes@.subrange(0, 0) =~= Seq::<u8>::empty());
                assert(m0.prefix + bytes@.subrange(0, bi + 1) =~= p);
                assert(f0.emitted =~= Seq::<u8>::empty());
                assert(f1.emitted =~= p);
            } else {
                assert(bytes@.subrange(0, pcs) + p =~= bytes@.subrange(0, bi + 1));
                assert(bytes@.subrange(clean0, pcs) + p =~= bytes@.subrange(clean0, bi + 1));
                if f0.assembled {
                    let fw0v = fw0->0;
                    assert(f0.emitted == fw0v + bytes@.subrange(clean0, pcs));
                    assert(f1.emitted =~= fw0v + bytes@.subrange(clean0, bi + 1));
                } else {
                    assert(f0.emitted == bytes@.subrange(0, pcs));
                    assert(f1.emitted =~= bytes@.subrange(0, bi + 1));
                }
            }
        }
        proof {
            assert(remerge_prefix().take(0) =~= Seq::<u8>::empty());
            lemma_inv_intro(
                m0,
                bytes@,
                bi + 1,
                self.model(),
                relay.clean as int,
                fw_view(relay.fw),
                relay.pcs as int,
                items_view(relay.items@),
                f1,
            );
        }
    }

    /// The byte that completes `REMERGE_EVENT:`: the held bytes are
    /// dropped and a control line begins.
    fn start_control(&mut self, relay: &mut Relay, bytes: &[u8], bi: usize, Ghost(m0): Ghost<PtyModel>)
        requires
            bi < bytes.len(),
            !old(self).skip_line,
            old(self).at_line_start,
            old(self).relay_inv(m0, bytes@, bi as int, old(relay)),
            old(self).prefix_buf@.len() + 1 == remerge_prefix().len(),
            bytes@[bi as int] == remerge_prefix()[old(self).prefix_buf@.len() as int],
        ensures
            final(self).relay_inv(m0, bytes@, bi + 1, final(relay)),
    {
        let b = bytes[bi];
        let ghost f0 = fold_chunk(m0, bytes@, bi as int);
        let ghost f1 = fold_step(f0, b, bi as int);
        assert(fold_chunk(m0, bytes@, bi + 1) == f1);
        let ghost p = self.prefix_buf@.push(b);
        assert(p =~= remerge_prefix().take(p.len() as int));
        assert(b != NEWLINE && b != CARRIAGE_RETURN);
        if self.prefix_buf.len() == 0 {
            relay.pcs = bi;
        }
        let mut fw = match relay.fw.take() {
            Some(v) => v,
            None => Vec::new(),
        };
        extend_range(&mut fw, bytes, relay.clean, relay.pcs);
        relay.fw = Some(fw);
        self.event_line_buf = remerge_prefix_vec();
        self.pattern_buf = Vec::new();
        self.prefix_buf = Vec::new();
        self.skip_line = true;
        self.at_line_start = false;
        proof {
            assert(self.prefix_buf@ =~= f1.m.prefix);
            assert(self.pattern_buf@ =~= f1.m.pattern);
            assert(self.model() == f1.m);
            assert(f1.emitted =~= f0.emitted);
            if f0.carried {
                assert(bytes@.subrange(0, 0) =~= Seq::<u8>::empty());
            }
        }
        proof {
            assert(remerge_prefix().take(0) =~= Seq::<u8>::empty());
            lemma_inv_intro(
                m0,
                bytes@,
                bi + 1,
                self.model(),
                relay.clean as int,
                fw_view(relay.fw),
                relay.pcs as int,
                items_view(relay.items@),
                f1,
            );
        }
    }

    /// A byte at the start of a line that continues the prefix: it is held.
    fn start_hold(&mut self, relay: &mut Relay, bytes: &[u8], bi: usize, Ghost(m0): Ghost<PtyModel>)
        requires
            bi < bytes.len(),
            bytes@[bi as int] != NEWLINE && bytes@[bi as int] != CARRIAGE_RETURN,
            !old(self).skip_line,
            old(self).at_line_start,
            old(self).relay_inv(m0, bytes@, bi as int, old(relay)),
            old(self).prefix_buf@.len() + 1 < remerge_prefix().len(),
            bytes@[bi as int] == remerge_prefix()[old(self).prefix_buf@.len() as int],
        ensures
            final(self).relay_inv(m0, bytes@, bi + 1, final(relay)),
    {
        let b = bytes[bi];
        let ghost f0 = fold_chunk(m0, bytes@, bi as int);
        let ghost f1 = fold_step(f0, b, bi as int);
        assert(fold_chunk(m0, bytes@, bi + 1) == f1);
        if self.prefix_buf.len() == 0 {
            relay.pcs = bi;
        }
        let ghost pcs = relay.pcs as int;
        proof {
            if self.prefix_buf@.len() == 0 {
                assert(bytes@.subrange(bi as int, bi as int) =~= self.prefix_buf@);
            }
            Self::lemma_held_prefix(m0, bytes@, bi as int, self.prefix_buf@, pcs, f0.carried);
        }
        self.prefix_buf.push(b);
        let ghost p = self.prefix_buf@;
        assert(p =~= remerge_prefix().take(p.len() as int));
        proof {
            assert(self.prefix_buf@ =~= f1.m.prefix);
            assert(self.model() == f1.m);
            assert(f1.emitted =~= f0.emitted);
            if !f0.carried && !f0.assembled && f0.m.prefix.len() == 0 {
                assert(bytes@.subrange(0, bi as int) =~= bytes@.subrange(0, pcs));
            }
            if !f0.carried && f0.assembled && f0.m.prefix.len() == 0 {
                assert(bytes@.subrange(relay.clean as int, bi as int) =~= bytes@.subrange(
                    relay.clean as int,
                    pcs,
                ));
            }
        }
    }

    /// Reads one chunk of terminal output: relays what it can, holds what
    /// may still start a control line, and hands over complete lines.
    pub fn feed(&mut self, bytes: &[u8]) -> (r: PtyFeed)
        requires
            old(self).wf(),
        ensures
            final(self).wf(),
            ({
                let (m, forward, items) = feed_outcome(old(self).model(), bytes@);
                &&& final(self).model() == m
                &&& r.forward@ == forward
                &&& items_view(r.items@) == items
            }),
    {
        let pfx = remerge_prefix_vec();
        let ghost m0 = self.model();
        let mut relay = Relay { fw: None, clean: 0, pcs: 0, items: Vec::new() };
        if self.skip_line {
            relay.fw = Some(Vec::new());
        }
        assert(bytes@.subrange(0, 0) =~= Seq::<u8>::empty());
        assert(items_view(relay.items@) =~= Seq::<ItemModel>::empty());
        assert(m0.prefix + bytes@.subrange(0, 0) =~= m0.prefix);
        let mut bi: usize = 0;
        while bi < bytes.len()
            invariant
                bi <= bytes.len(),
                pfx@ == remerge_prefix(),
                self.relay_inv(m0, bytes@, bi as int, &relay),
            decreases bytes.len() - bi,
        {
            if self.skip_line {
                self.skip_byte(&mut relay, bytes, bi, Ghost(m0));
            } else if self.at_line_start {
                let b = bytes[bi];
                let k = self.prefix_buf.len();
                if b == NEWLINE || b == CARRIAGE_RETURN {
                    self.start_line_end(&mut relay, bytes, bi, Ghost(m0));
                } else if pfx[k] != b {
                    self.start_mismatch(&mut relay, bytes, bi, Ghost(m0));
                } else if k + 1 == pfx.len() {
                    self.start_control(&mut relay, bytes, bi, Ghost(m0));
                } else {
                    self.start_hold(&mut relay, bytes, bi, Ghost(m0));
                }
            } else {
                self.passthrough_byte(&mut relay, bytes, bi, Ghost(m0));
            }
            bi += 1;
        }
        let prefix_tail: usize = if self.at_line_start && self.prefix_buf.len() > 0 {
            bytes.len() - relay.pcs
        } else {
            0
        };
        let forward_end = bytes.len() - prefix_tail;
        let forward = match relay.fw {
            Some(mut fw) => {
                if !self.skip_line {
                    extend_range(&mut fw, bytes, relay.clean, forward_end);
                }
                fw
            },
            None => {
                let mut v: Vec<u8> = Vec::new();
                extend_range(&mut v, bytes, 0, forward_end);
                v
            },
        };
        PtyFeed { forward, items: relay.items }
    }
}

proof fn lemma_fold_is_run(m: PtyModel, c: Seq<u8>, n: int)
    requires
        0 <= n <= c.len(),
    ensures
        fold_chunk(m, c, n).m == run(m, c.take(n)).0,
        fold_chunk(m, c, n).emitted == run(m, c.take(n)).1,
        fold_chunk(m, c, n).items == run(m, c.take(n)).2,
    decreases n,
{
    if n == 0 {
        assert(c.take(0) =~= Seq::<u8>::empty());
    } else {
        lemma_fold_is_run(m, c, n - 1);
        assert(c.take(n).drop_last() =~= c.take(n - 1));
        assert(c.take(n).last() == c[n - 1]);
    }
}

proof fn lemma_run_append(m: PtyModel, a: Seq<u8>, b: Seq<u8>)
    ensures
        run(m, a + b).0 == run(run(m, a).0, b).0,
        run(m, a + b).1 == run(m, a).1 + run(run(m, a).0, b).1,
        run(m, a + b).2 == run(m, a).2 + run(run(m, a).0, b).2,
    decreases b.len(),
{
    if b.len() == 0 {
        assert(a + b =~= a);
        assert(run(m, a).1 + Seq::<u8>::empty() =~= run(m, a).1);
        assert(run(m, a).2 + Seq::<ItemModel>::empty() =~= run(m, a).2);
    } else {
        assert((a + b).drop_last() =~= a + b.drop_last());
        assert((a + b).last() == b.last());
        lemma_run_append(m, a, b.drop_last());
        let (m1, o1, i1) = run(m, a);
        let (mb, ob, ib) = run(m1, b.drop_last());
        let (m2, out, item) = step(mb, b.last());
        assert(o1 + ob + out =~= o1 + (ob + out));
        match item {
            Some(x) => {
                assert((i1 + ib).push(x) =~= i1 + ib.push(x));
            },
            None => {},
        }
    }
}

/// What a chunk relays and hands over, and the state it leaves, are those
/// of the per-byte run over it.
pub proof fn law_feed_is_per_byte(m: PtyModel, c: Seq<u8>)
    ensures
        feed_outcome(m, c).0 == run(m, c).0,
        feed_outcome(m, c).1 == run(m, c).1,
        feed_outcome(m, c).2 == run(m, c).2,
{
    lemma_fold_is_run(m, c, c.len() as int);
    assert(c.take(c.len() as int) =~= c);
}

/// How the output is cut into chunks does not change the bytes relayed,
/// the lines handed over or the state left behind.
pub proof fn law_chunking_is_invisible(m: PtyModel, a: Seq<u8>, b: Seq<u8>)
    ensures
        ({
            let (ma, fa, ia) = feed_outcome(m, a);
            let (mb, fb, ib) = feed_outcome(ma, b);
            let (mab, fab, iab) = feed_outcome(m, a + b);
            &&& mab == mb
            &&& iab == ia + ib
            &&& fab == fa + fb
        }),
{
    law_feed_is_per_byte(m, a);
    law_feed_is_per_byte(run(m, a).0, b);
    law_feed_is_per_byte(m, a + b);
    lemma_run_append(m, a, b);
}

/// Output in which no byte is `R`, so that no line can begin
/// `REMERGE_EVENT:`, is relayed byte for byte and never enters a control
/// line, from any state outside a control line with nothing held.
pub proof fn law_plain_output_passes_through(m: PtyModel, c: Seq<u8>)
    requires
        !m.skip,
        m.prefix.len() == 0,
        forall|i: int| 0 <= i < c.len() ==> c[i] != 82u8,
    ensures
        run(m, c).1 == c,
        !run(m, c).0.skip,
    decreases c.len(),
{
    if c.len() > 0 {
        law_plain_output_passes_through(m, c.drop_last());
        lemma_run_prefix_empty(m, c.drop_last());
        let (m1, o1, i1) = run(m, c.drop_last());
        lemma_plain_step(m1, c.last());
        assert(o1 + seq![c.last()] =~= c);
    }
}

proof fn lemma_plain_step(m: PtyModel, b: u8)
    requires
        !m.skip,
        m.prefix.len() == 0,
        b != 82u8,
    ensures
        step(m, b).1 == seq![b],
        step(m, b).0.prefix.len() == 0,
        !step(m, b).0.skip,
{
    assert(remerge_prefix().take(1) =~= seq![82u8]);
    assert(m.prefix.push(b) =~= seq![b]);
    assert(seq![b] != remerge_prefix().take(1)) by {
        assert(seq![b][0] != remerge_prefix().take(1)[0]);
    }
}

proof fn lemma_run_prefix_empty(m: PtyModel, c: Seq<u8>)
    requires
        !m.skip,
        m.prefix.len() == 0,
        forall|i: int| 0 <= i < c.len() ==> c[i] != 82u8,
    ensures
        run(m, c).0.prefix.len() == 0,
        !run(m, c).0.skip,
    decreases c.len(),
{
    if c.len() > 0 {
        lemma_run_prefix_empty(m, c.drop_last());
        let (m1, o1, i1) = run(m, c.drop_last());
        lemma_plain_step(m1, c.last());
    }
}

} // verus!
