//! Transport identifiers: the typed address of a device, parsed from the
//! textual form `trtype:<TYPE> traddr:<ADDRESS>`.  Parsing fully
//! validates the transport kind and the address syntax or fails; it never
//! yields a partial identifier.

use vstd::prelude::*;

verus! {

/// The transport kinds a device can be reached through.
#[derive(Clone, Copy, Debug, PartialEq, Eq, Structural)]
pub enum TransportType {
    Pcie,
    Tcp,
    Rdma,
}

/// A malformed transport identifier string.
#[derive(Clone, Copy, Debug, PartialEq, Eq, Structural)]
pub struct ParseError;

/// The characters that introduce the transport kind.
pub open spec fn trtype_prefix() -> Seq<char> {
    seq!['t', 'r', 't', 'y', 'p', 'e', ':']
}

/// The textual label of each transport kind.
pub open spec fn label_chars(t: TransportType) -> Seq<char> {
    match t {
        TransportType::Pcie => seq!['P', 'C', 'I', 'e'],
        TransportType::Tcp => seq!['T', 'C', 'P'],
        TransportType::Rdma => seq!['R', 'D', 'M', 'A'],
    }
}

/// The characters that separate the kind from the address.
pub open spec fn traddr_prefix() -> Seq<char> {
    seq![' ', 't', 'r', 'a', 'd', 'd', 'r', ':']
}

/// Everything before the address in a well-formed identifier of kind `t`.
pub open spec fn head_chars(t: TransportType) -> Seq<char> {
    trtype_prefix() + label_chars(t) + traddr_prefix()
}

/// A well-formed identifier string: head of kind `t`, then the address.
pub open spec fn tid_chars(t: TransportType, a: Seq<char>) -> Seq<char> {
    head_chars(t) + a
}

/// A syntactically valid address: non-empty and without spaces.
pub open spec fn valid_address(a: Seq<char>) -> bool {
    a.len() > 0 && forall|i: int| 0 <= i < a.len() ==> a[i] != ' '
}

/// Whether `s` begins with the head of kind `t`.
pub open spec fn head_matches(s: Seq<char>, t: TransportType) -> bool {
    head_chars(t).len() <= s.len() && s.take(head_chars(t).len() as int) == head_chars(t)
}

/// Whether `s` is a well-formed identifier of kind `t`.
pub open spec fn tid_matches(s: Seq<char>, t: TransportType) -> bool {
    head_matches(s, t) && valid_address(s.skip(head_chars(t).len() as int))
}

/// What parsing `s` yields: the transport kind and the address, or
/// nothing when `s` is malformed.
pub open spec fn parse_chars(s: Seq<char>) -> Option<(TransportType, Seq<char>)> {
    if tid_matches(s, TransportType::Pcie) {
        Some((TransportType::Pcie, s.skip(head_chars(TransportType::Pcie).len() as int)))
    } else if tid_matches(s, TransportType::Tcp) {
        Some((TransportType::Tcp, s.skip(head_chars(TransportType::Tcp).len() as int)))
    } else if tid_matches(s, TransportType::Rdma) {
        Some((TransportType::Rdma, s.skip(head_chars(TransportType::Rdma).len() as int)))
    } else {
        None
    }
}

/// A string whose head matches one kind matches no other: the labels
/// differ in their first character, right after the seven-character
/// `trtype:` prefix.
pub proof fn lemma_head_distinct(s: Seq<char>, t1: TransportType, t2: TransportType)
    requires
        head_matches(s, t1),
        t1 != t2,
    ensures
        !head_matches(s, t2),
{
    assert(s[7] == s.take(head_chars(t1).len() as int)[7]);
    assert(head_chars(t1)[7] == label_chars(t1)[0]);
    if head_matches(s, t2) {
        assert(s[7] == s.take(head_chars(t2).len() as int)[7]);
        assert(head_chars(t2)[7] == label_chars(t2)[0]);
        assert(label_chars(t1)[0] != label_chars(t2)[0]);
        assert(false);
    }
}

/// Every well-formed identifier string parses, and parses to its own
/// transport kind and address.
pub proof fn lemma_parse_round_trip(t: TransportType, a: Seq<char>)
    requires
        valid_address(a),
    ensures
        parse_chars(tid_chars(t, a)) == Some((t, a)),
{
    let s = tid_chars(t, a);
    assert(s.take(head_chars(t).len() as int) =~= head_chars(t));
    assert(s.skip(head_chars(t).len() as int) =~= a);
    assert(tid_matches(s, t));
    if t != TransportType::Pcie {
        lemma_head_distinct(s, t, TransportType::Pcie);
    }
    if t != TransportType::Tcp {
        lemma_head_distinct(s, t, TransportType::Tcp);
    }
    if t != TransportType::Rdma {
        lemma_head_distinct(s, t, TransportType::Rdma);
    }
}

/// A string that parses was well formed: it is exactly the head of the
/// parsed kind followed by the parsed address, and that address is valid.
pub proof fn lemma_parse_sound(s: Seq<char>)
    requires
        parse_chars(s) is Some,
    ensures
        ({
            let (t, a) = parse_chars(s)->Some_0;
            s == tid_chars(t, a) && valid_address(a)
        }),
{
    let (t, a) = parse_chars(s)->Some_0;
    assert(tid_matches(s, t));
    assert(s =~= s.take(head_chars(t).len() as int) + s.skip(head_chars(t).len() as int));
}

/// The ghost content of a transport identifier: its kind and address.
pub ghost struct TransportIdView {
    pub trtype: TransportType,
    pub addr: Seq<char>,
}

/// An owned, caller-constructed transport identifier, valid until
/// dropped.  It only comes out of `from_str`, so it always satisfies the
/// identifier grammar.
pub struct OwnedTransportIdentifier {
    trtype: TransportType,
    addr: String,
}

impl View for OwnedTransportIdentifier {
    type V = TransportIdView;

    closed spec fn view(&self) -> TransportIdView {
        TransportIdView { trtype: self.trtype, addr: self.addr@ }
    }
}

impl OwnedTransportIdentifier {
    /// Well-formed: the address satisfies the grammar.
    pub open spec fn wf(&self) -> bool {
        valid_address(self@.addr)
    }

    /// Parses `trtype:<TYPE> traddr:<ADDRESS>`.  Succeeds exactly on the
    /// strings the grammar admits, and then returns the identifier whose
    /// kind and address are the parsed ones.
    pub fn from_str(s: &str) -> (r: Result<OwnedTransportIdentifier, ParseError>)
        ensures
            r is Ok <==> parse_chars(s@) is Some,
            r matches Ok(tid) ==> Some((tid@.trtype, tid@.addr)) == parse_chars(s@) && tid.wf(),
    {
        let n: usize = s.unicode_len();
        proof {
            reveal_strlit("trtype:");
            assert("trtype:"@ =~= trtype_prefix());
        }
        if !starts_with_at(s, 0, "trtype:") {
            proof {
                lemma_no_head_without_trtype(s@);
            }
            return Err(ParseError);
        }
        if starts_with_at(s, 7, "PCIe traddr:") {
            proof {
                reveal_strlit("PCIe traddr:");
                assert("PCIe traddr:"@ =~= label_chars(TransportType::Pcie) + traddr_prefix());
                lemma_assemble_head(s@, TransportType::Pcie, "trtype:"@, "PCIe traddr:"@);
            }
            finish_address(s, 19, n, TransportType::Pcie)
        } else if starts_with_at(s, 7, "TCP traddr:") {
            proof {
                reveal_strlit("TCP traddr:");
                assert("TCP traddr:"@ =~= label_chars(TransportType::Tcp) + traddr_prefix());
                lemma_assemble_head(s@, TransportType::Tcp, "trtype:"@, "TCP traddr:"@);
            }
            finish_address(s, 18, n, TransportType::Tcp)
        } else if starts_with_at(s, 7, "RDMA traddr:") {
            proof {
                reveal_strlit("RDMA traddr:");
                assert("RDMA traddr:"@ =~= label_chars(TransportType::Rdma) + traddr_prefix());
                lemma_assemble_head(s@, TransportType::Rdma, "trtype:"@, "RDMA traddr:"@);
            }
            finish_address(s, 19, n, TransportType::Rdma)
        } else {
            proof {
                reveal_strlit("PCIe traddr:");
                reveal_strlit("TCP traddr:");
                reveal_strlit("RDMA traddr:");
                assert("PCIe traddr:"@ =~= label_chars(TransportType::Pcie) + traddr_prefix());
                assert("TCP traddr:"@ =~= label_chars(TransportType::Tcp) + traddr_prefix());
                assert("RDMA traddr:"@ =~= label_chars(TransportType::Rdma) + traddr_prefix());
                lemma_no_head_without_label(s@, TransportType::Pcie, "PCIe traddr:"@);
                lemma_no_head_without_label(s@, TransportType::Tcp, "TCP traddr:"@);
                lemma_no_head_without_label(s@, TransportType::Rdma, "RDMA traddr:"@);
            }
            Err(ParseError)
        }
    }

    /// The transport kind of this identifier.
    pub fn transport_type(&self) -> (t: TransportType)
        ensures
            t == self@.trtype,
    {
        self.trtype
    }

    /// The address of this identifier.
    pub fn address(&self) -> (a: &str)
        ensures
            a@ == self@.addr,
    {
        self.addr.as_str()
    }
}

/// A borrowed view of a transport identifier, valid only while the value
/// it was taken from is; handed to discovery callbacks.
#[derive(Clone, Copy)]
pub struct TransportIdentifier<'a> {
    trtype: TransportType,
    traddr: &'a str,
}

impl<'a> View for TransportIdentifier<'a> {
    type V = TransportIdView;

    closed spec fn view(&self) -> TransportIdView {
        TransportIdView { trtype: self.trtype, addr: self.traddr@ }
    }
}

impl<'a> TransportIdentifier<'a> {
    /// A view onto the given kind and address.
    pub(crate) fn new(trtype: TransportType, traddr: &'a str) -> (r: TransportIdentifier<'a>)
        ensures
            r@ == (TransportIdView { trtype, addr: traddr@ }),
    {
        TransportIdentifier { trtype, traddr }
    }

    /// The transport kind.
    pub fn transport_type(&self) -> (t: TransportType)
        ensures
            t == self@.trtype,
    {
        self.trtype
    }

    /// The address.
    pub fn address(&self) -> (a: &str)
        ensures
            a@ == self@.addr,
    {
        self.traddr
    }
}

/// What a value usable as a discovery target exposes: a specific
/// transport address, or nothing to enumerate every reachable device.
pub trait UnderlyingTransportIdentifier {
    /// The target this value denotes.
    spec fn spec_target(&self) -> Option<TransportIdView>;

    /// The borrowed identifier of the target, when there is one.
    fn transport_id(&self) -> (r: Option<TransportIdentifier<'_>>)
        ensures
            match r {
                Some(v) => self.spec_target() == Some(v@),
                None => self.spec_target() is None,
            },
    ;
}

impl<'o> UnderlyingTransportIdentifier for &'o OwnedTransportIdentifier {
    open spec fn spec_target(&self) -> Option<TransportIdView> {
        Some((**self)@)
    }

    fn transport_id(&self) -> (r: Option<TransportIdentifier<'_>>) {
        Some(TransportIdentifier { trtype: self.trtype, traddr: self.addr.as_str() })
    }
}

impl<'a> UnderlyingTransportIdentifier for TransportIdentifier<'a> {
    open spec fn spec_target(&self) -> Option<TransportIdView> {
        Some((*self)@)
    }

    fn transport_id(&self) -> (r: Option<TransportIdentifier<'_>>) {
        Some(*self)
    }
}

impl UnderlyingTransportIdentifier for () {
    open spec fn spec_target(&self) -> Option<TransportIdView> {
        None
    }

    fn transport_id(&self) -> (r: Option<TransportIdentifier<'_>>) {
        None
    }
}

/// Whether two strings hold the same characters.
pub fn str_eq(a: &str, b: &str) -> (r: bool)
    ensures
        r == (a@ == b@),
{
    let n: usize = a.unicode_len();
    let m: usize = b.unicode_len();
    if n != m {
        return false;
    }
    let mut i: usize = 0;
    while i < n
        invariant
            i <= n,
            n == a@.len(),
            n == b@.len(),
            forall|k: int| 0 <= k < i ==> a@[k] == b@[k],
        decreases n - i,
    {
        if a.get_char(i) != b.get_char(i) {
            return false;
        }
        i = i + 1;
    }
    proof {
        assert(a@ =~= b@);
    }
    true
}

/// Whether `s`, from position `off` on, begins with `pat`.
fn starts_with_at(s: &str, off: usize, pat: &str) -> (r: bool)
    requires
        off <= s@.len(),
    ensures
        r == (off + pat@.len() <= s@.len() && s@.subrange(
            off as int,
            off + pat@.len(),
        ) == pat@),
{
    let n: usize = s.unicode_len();
    let m: usize = pat.unicode_len();
    if m > n - off {
        return false;
    }
    let mut j: usize = 0;
    while j < m
        invariant
            j <= m,
            off + m <= n,
            n == s@.len(),
            m == pat@.len(),
            forall|k: int| 0 <= k < j ==> #[trigger] s@[off + k] == pat@[k],
        decreases m - j,
    {
        if s.get_char(off + j) != pat.get_char(j) {
            proof {
                let sub = s@.subrange(off as int, off + pat@.len());
                assert(sub[j as int] == s@[off + j]);
            }
            return false;
        }
        j = j + 1;
    }
    proof {
        let sub = s@.subrange(off as int, off + pat@.len());
        assert forall|k: int| 0 <= k < pat@.len() implies sub[k] == pat@[k] by {
            assert(s@[off + k] == pat@[k]);
        }
        assert(sub =~= pat@);
    }
    true
}

/// A head never matches when `trtype:` is missing.
proof fn lemma_no_head_without_trtype(s: Seq<char>)
    requires
        !(7 <= s.len() && s.subrange(0, 7) == trtype_prefix()),
    ensures
        parse_chars(s) is None,
{
    assert forall|t: TransportType| !head_matches(s, t) by {
        if head_matches(s, t) {
            let l = head_chars(t).len() as int;
            assert forall|i: int| 0 <= i < 7 implies s.subrange(0, 7)[i] == trtype_prefix()[i] by {
                assert(s.take(l)[i] == head_chars(t)[i]);
            }
            assert(s.subrange(0, 7) =~= trtype_prefix());
            assert(false);
        }
    }
    assert(!tid_matches(s, TransportType::Pcie));
    assert(!tid_matches(s, TransportType::Tcp));
    assert(!tid_matches(s, TransportType::Rdma));
}

/// A head of kind `t` never matches when the label-and-`traddr:` part
/// after position seven is not `rest`.
proof fn lemma_no_head_without_label(s: Seq<char>, t: TransportType, rest: Seq<char>)
    requires
        rest == label_chars(t) + traddr_prefix(),
        !(7 + rest.len() as int <= s.len() && s.subrange(7, 7 + rest.len() as int) == rest),
    ensures
        !head_matches(s, t),
        !tid_matches(s, t),
{
    if head_matches(s, t) {
        let l = head_chars(t).len() as int;
        assert(l == 7 + rest.len() as int);
        assert forall|i: int| 0 <= i < rest.len() implies s.subrange(7, 7 + rest.len() as int)[i]
            == rest[i] by {
            assert(s.take(l)[7 + i] == head_chars(t)[7 + i]);
            assert(head_chars(t)[7 + i] == rest[i]);
        }
        assert(s.subrange(7, 7 + rest.len() as int) =~= rest);
        assert(false);
    }
}

/// When `trtype:` stands at the start and `rest` right after it, the
/// whole head of kind `t` matches.
proof fn lemma_assemble_head(s: Seq<char>, t: TransportType, pre: Seq<char>, rest: Seq<char>)
    requires
        pre == trtype_prefix(),
        rest == label_chars(t) + traddr_prefix(),
        7 <= s.len(),
        s.subrange(0, 7) == pre,
        7 + rest.len() as int <= s.len(),
        s.subrange(7, 7 + rest.len() as int) == rest,
    ensures
        head_matches(s, t),
{
    let l = head_chars(t).len() as int;
    assert(l == 7 + rest.len() as int);
    assert forall|i: int| 0 <= i < l implies s.take(l)[i] == head_chars(t)[i] by {
        if i < 7 {
            assert(s.subrange(0, 7)[i] == s[i]);
            assert(trtype_prefix()[i] == head_chars(t)[i]);
        } else {
            assert(s.subrange(7, 7 + rest.len() as int)[i - 7] == s[i]);
            assert(rest[i - 7] == head_chars(t)[i]);
        }
    }
    assert(s.take(l) =~= head_chars(t));
}

/// Validates and copies the address part, which starts at `start`, and
/// builds the identifier; fails exactly when the address is empty or
/// holds a space.
fn finish_address(s: &str, start: usize, n: usize, t: TransportType) -> (r: Result<
    OwnedTransportIdentifier,
    ParseError,
>)
    requires
        n == s@.len(),
        start <= n,
        head_matches(s@, t),
        head_chars(t).len() == start,
    ensures
        r is Ok <==> parse_chars(s@) is Some,
        r matches Ok(tid) ==> Some((tid@.trtype, tid@.addr)) == parse_chars(s@) && tid.wf(),
{
    let ghost addr = s@.skip(start as int);
    let mut i: usize = start;
    while i < n
        invariant
            start <= i <= n,
            n == s@.len(),
            head_matches(s@, t),
            head_chars(t).len() == start,
            addr == s@.skip(start as int),
            forall|k: int| start <= k < i ==> #[trigger] s@[k] != ' ',
        decreases n - i,
    {
        if s.get_char(i) == ' ' {
            proof {
                assert(addr[i - start] == s@[start + (i - start)]);
                assert(addr[i - start] == ' ');
                lemma_finish_none(s@, t);
            }
            return Err(ParseError);
        }
        i = i + 1;
    }
    if start == n {
        proof {
            assert(addr.len() == 0);
            lemma_finish_none(s@, t);
        }
        return Err(ParseError);
    }
    proof {
        assert forall|k: int| 0 <= k < addr.len() implies addr[k] != ' ' by {
            assert(s@[start + k] != ' ');
        }
        assert(valid_address(addr));
        assert(tid_matches(s@, t));
        lemma_finish_some(s@, t);
    }
    let addr_str: &str = s.substring_char(start, n);
    let tid = OwnedTransportIdentifier { trtype: t, addr: addr_str.to_owned() };
    proof {
        assert(tid@.addr =~= addr);
    }
    Ok(tid)
}

/// With the head of `t` matched but its address invalid, nothing parses.
proof fn lemma_finish_none(s: Seq<char>, t: TransportType)
    requires
        head_matches(s, t),
        !valid_address(s.skip(head_chars(t).len() as int)),
    ensures
        parse_chars(s) is None,
{
    if t != TransportType::Pcie {
        lemma_head_distinct(s, t, TransportType::Pcie);
    }
    if t != TransportType::Tcp {
        lemma_head_distinct(s, t, TransportType::Tcp);
    }
    if t != TransportType::Rdma {
        lemma_head_distinct(s, t, TransportType::Rdma);
    }
}

/// With the whole identifier of kind `t` matched, parsing yields exactly
/// `t` and the address part.
proof fn lemma_finish_some(s: Seq<char>, t: TransportType)
    requires
        tid_matches(s, t),
    ensures
        parse_chars(s) == Some((t, s.skip(head_chars(t).len() as int))),
{
    if t != TransportType::Pcie {
        lemma_head_distinct(s, t, TransportType::Pcie);
    }
    if t != TransportType::Tcp {
        lemma_head_distinct(s, t, TransportType::Tcp);
    }
    if t != TransportType::Rdma {
        lemma_head_distinct(s, t, TransportType::Rdma);
    }
}

} // verus!
