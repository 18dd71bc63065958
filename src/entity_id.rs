use vstd::prelude::*;

use crate::error::{Error, LedgerTask};
use crate::hex::{hex_bytes, hex_decode, hex_encode, hex_lower, is_hex_text, lemma_hex_bytes_len};
use crate::ledger_id::LedgerId;
use crate::text::{
    chars_of, decimal_text, decimal_value, find_char, first_index, is_u64_text, parse_u64,
    push_char, push_decimal,
};

verus! {

/// Five lower-case letters derived from an entity id and a ledger id.
#[derive(Clone, Copy, Debug, Eq, Hash)]
pub struct Checksum {
    bytes: [u8; 5],
}

/// A lower-case ASCII letter.
pub open spec fn is_checksum_letter(b: u8) -> bool {
    97 <= b <= 122
}

/// Exactly five lower-case ASCII letters.
pub open spec fn is_checksum_text(b: Seq<u8>) -> bool {
    &&& b.len() == 5
    &&& forall|i: int| 0 <= i < 5 ==> is_checksum_letter(#[trigger] b[i])
}

impl View for Checksum {
    type V = Seq<u8>;

    closed spec fn view(&self) -> Seq<u8> {
        self.bytes@
    }
}

impl Checksum {
    #[verifier::type_invariant]
    spec fn inv(&self) -> bool {
        is_checksum_text(self.bytes@)
    }
}

impl PartialEq for Checksum {
    fn eq(&self, o: &Checksum) -> (r: bool) {
        assert(self.bytes@ =~= seq![self.bytes[0], self.bytes[1], self.bytes[2], self.bytes[3], self.bytes[4]]);
        assert(o.bytes@ =~= seq![o.bytes[0], o.bytes[1], o.bytes[2], o.bytes[3], o.bytes[4]]);
        self.bytes[0] == o.bytes[0] && self.bytes[1] == o.bytes[1] && self.bytes[2] == o.bytes[2]
            && self.bytes[3] == o.bytes[3] && self.bytes[4] == o.bytes[4]
    }
}

impl vstd::std_specs::cmp::PartialEqSpecImpl for Checksum {
    open spec fn obeys_eq_spec() -> bool {
        true
    }

    open spec fn eq_spec(&self, o: &Checksum) -> bool {
        self@ == o@
    }
}

/// 26 to the third: the range of the weighted digit sum.
pub const POW26_3: u64 = 17576;

/// 26 to the fifth: the range of a checksum as a number.
pub const POW26_5: u64 = 11881376;

/// The smallest prime above a million, used for the final permutation.
pub const M: u64 = 1000003;

/// The weight of each step of the digit and ledger sums.
pub const W: u64 = 31;

/// A character of the text `shard.realm.num`.
pub open spec fn is_id_char(c: char) -> bool {
    c == '.' || ('0' as u32 <= c as u32 <= '9' as u32)
}

/// Decimal digits stand for themselves, `.` for ten.
pub open spec fn id_digit(c: char) -> int {
    if c == '.' {
        10
    } else {
        c as u32 - '0' as u32
    }
}

/// `s = (W * s + digit) mod POW26_3` over all the digits.
pub open spec fn weighted_sum(s: Seq<char>) -> int
    decreases s.len(),
{
    if s.len() == 0 {
        0
    } else {
        (W * weighted_sum(s.drop_last()) + id_digit(s.last())) % (POW26_3 as int)
    }
}

/// The sum mod 11 of the digits at even positions (`even`) or at odd positions.
pub open spec fn parity_sum(s: Seq<char>, even: bool) -> int
    decreases s.len(),
{
    if s.len() == 0 {
        0
    } else if ((s.len() - 1) % 2 == 0) == even {
        (parity_sum(s.drop_last(), even) + id_digit(s.last())) % 11
    } else {
        parity_sum(s.drop_last(), even)
    }
}

/// `h = (W * h + byte) mod POW26_5` over the bytes.
pub open spec fn byte_hash(b: Seq<u8>) -> int
    decreases b.len(),
{
    if b.len() == 0 {
        0
    } else {
        (W * byte_hash(b.drop_last()) + b.last()) % (POW26_5 as int)
    }
}

/// The hash of a ledger id's bytes followed by six zero bytes.
pub open spec fn ledger_hash(ledger: Seq<u8>) -> int {
    byte_hash(ledger + Seq::new(6, |i: int| 0u8))
}

/// The checksum of an id's text on a ledger, as a number below POW26_5.
pub open spec fn checksum_number(s: Seq<char>, ledger: Seq<u8>) -> int {
    let c = ((((s.len() % 5) * 11 + parity_sum(s, true)) * 11 + parity_sum(s, false)) * POW26_3
        + weighted_sum(s) + ledger_hash(ledger)) % (POW26_5 as int);
    (c * M) % (POW26_5 as int)
}

/// A number below POW26_5 as five base-26 letters, most significant first.
pub open spec fn checksum_letters(c: int) -> Seq<u8> {
    seq![
        (97 + (c / 456976) % 26) as u8,
        (97 + (c / 17576) % 26) as u8,
        (97 + (c / 676) % 26) as u8,
        (97 + (c / 26) % 26) as u8,
        (97 + c % 26) as u8,
    ]
}

/// The checksum of an id's text on a ledger.
pub open spec fn checksum_of(s: Seq<char>, ledger: Seq<u8>) -> Seq<u8> {
    checksum_letters(checksum_number(s, ledger))
}

/// The checksum as text: its letters as characters.
pub open spec fn checksum_chars(b: Seq<u8>) -> Seq<char> {
    Seq::new(b.len(), |i: int| b[i] as char)
}

/// Text of exactly five lower-case ASCII letters.
pub open spec fn is_checksum_chars(t: Seq<char>) -> bool {
    &&& t.len() == 5
    &&& forall|i: int| 0 <= i < 5 ==> 97 <= #[trigger] (t[i] as u32) <= 122
}

/// The bytes of checksum text.
pub open spec fn checksum_bytes(t: Seq<char>) -> Seq<u8> {
    Seq::new(t.len(), |i: int| (t[i] as u32) as u8)
}

impl Checksum {
    /// Reads exactly five lower-case ASCII letters.
    pub fn from_str(s: &str) -> (r: Result<Checksum, Error>)
        ensures
            r is Ok <==> is_checksum_chars(s@),
            r matches Ok(c) ==> c@ == checksum_bytes(s@),
            r matches Err(e) ==> e == Error::BasicParse,
    {
        let t = chars_of(s);
        assert(t@.subrange(0, t@.len() as int) =~= s@);
        Checksum::from_chars(&t, 0, t.len())
    }

    /// Reads the checksum in `t[from..to]`.
    fn from_chars(t: &Vec<char>, from: usize, to: usize) -> (r: Result<Checksum, Error>)
        requires
            from <= to <= t@.len(),
        ensures
            r is Ok <==> is_checksum_chars(t@.subrange(from as int, to as int)),
            r matches Ok(c) ==> c@ == checksum_bytes(t@.subrange(from as int, to as int)),
            r matches Err(e) ==> e == Error::BasicParse,
    {
        let ghost u = t@.subrange(from as int, to as int);
        if to - from != 5 {
            return Err(Error::BasicParse);
        }
        let mut i: usize = from;
        while i < to
            invariant
                from <= i <= to <= t@.len(),
                to - from == 5,
                u == t@.subrange(from as int, to as int),
                forall|j: int| 0 <= j < i - from ==> 97 <= #[trigger] (u[j] as u32) <= 122,
            decreases to - i,
        {
            let c = t[i] as u32;
            if c < 97 || c > 122 {
                assert(u[i - from] as u32 == c);
                return Err(Error::BasicParse);
            }
            i = i + 1;
        }
        let bytes: [u8; 5] = [
            t[from] as u32 as u8,
            t[from + 1] as u32 as u8,
            t[from + 2] as u32 as u8,
            t[from + 3] as u32 as u8,
            t[from + 4] as u32 as u8,
        ];
        assert(bytes@ =~= checksum_bytes(u)) by {
            assert(forall|j: int| 0 <= j < 5 ==> u[j] == t@[from + j]);
            assert(forall|j: int| 0 <= j < 5 ==> 97 <= #[trigger] (u[j] as u32) <= 122);
        }
        Ok(Checksum { bytes })
    }

    /// The five letters.
    pub fn to_string(&self) -> (r: String)
        ensures
            r@ == checksum_chars(self@),
    {
        let mut r = String::new();
        let mut i: usize = 0;
        while i < 5
            invariant
                i <= 5,
                self.bytes@.len() == 5,
                r@ =~= checksum_chars(self.bytes@).subrange(0, i as int),
            decreases 5 - i,
        {
            push_char(&mut r, self.bytes[i] as char);
            i = i + 1;
        }
        r
    }
}

/// Computes the five-letter checksum of the text `shard.realm.num` on a ledger.
pub fn generate_checksum(entity_id_string: &str, ledger_id: &LedgerId) -> (r: Checksum)
    requires
        forall|i: int| 0 <= i < entity_id_string@.len() ==> is_id_char(#[trigger] entity_id_string@[i]),
    ensures
        r@ == checksum_of(entity_id_string@, ledger_id@),
{
    let d = chars_of(entity_id_string);
    let ghost t = d@;
    let mut s: u64 = 0;
    let mut s0: u64 = 0;
    let mut s1: u64 = 0;
    let mut i: usize = 0;
    while i < d.len()
        invariant
            t == d@,
            i <= t.len(),
            forall|j: int| 0 <= j < t.len() ==> is_id_char(#[trigger] t[j]),
            s == weighted_sum(t.subrange(0, i as int)),
            s0 == parity_sum(t.subrange(0, i as int), true),
            s1 == parity_sum(t.subrange(0, i as int), false),
            s < POW26_3,
            s0 < 11,
            s1 < 11,
        decreases t.len() - i,
    {
        let c = d[i];
        let digit: u64 = if c == '.' {
            10
        } else {
            (c as u32 - '0' as u32) as u64
        };
        let ghost p = t.subrange(0, i + 1);
        assert(p.drop_last() =~= t.subrange(0, i as int));
        assert(p.last() == c);
        assert(is_id_char(t[i as int]));
        s = (W * s + digit) % POW26_3;
        if i % 2 == 0 {
            s0 = (s0 + digit) % 11;
        } else {
            s1 = (s1 + digit) % 11;
        }
        i = i + 1;
    }
    assert(t.subrange(0, t.len() as int) =~= t);
    let mut h = ledger_id.to_bytes();
    let mut k: usize = 0;
    while k < 6
        invariant
            k <= 6,
            h@ =~= ledger_id@ + Seq::new(k as nat, |i: int| 0u8),
        decreases 6 - k,
    {
        h.push(0u8);
        k = k + 1;
    }
    let mut sh: u64 = 0;
    let mut j: usize = 0;
    while j < h.len()
        invariant
            j <= h@.len(),
            sh == byte_hash(h@.subrange(0, j as int)),
            sh < POW26_5,
        decreases h@.len() - j,
    {
        let ghost p = h@.subrange(0, j + 1);
        assert(p.drop_last() =~= h@.subrange(0, j as int));
        sh = (W * sh + h[j] as u64) % POW26_5;
        j = j + 1;
    }
    assert(h@.subrange(0, h@.len() as int) =~= h@);
    let n = (d.len() % 5) as u64;
    let mut c: u64 = (((n * 11 + s0) * 11 + s1) * POW26_3 + s + sh) % POW26_5;
    c = (c * M) % POW26_5;
    assert(c == checksum_number(t, ledger_id@));
    let bytes: [u8; 5] = [
        (97 + (c / 456976) % 26) as u8,
        (97 + (c / 17576) % 26) as u8,
        (97 + (c / 676) % 26) as u8,
        (97 + (c / 26) % 26) as u8,
        (97 + c % 26) as u8,
    ];
    assert(bytes@ =~= checksum_letters(c as int));
    Checksum { bytes }
}

/// The text `shard.realm.num`.
pub open spec fn id_text(shard: u64, realm: u64, num: u64) -> Seq<char> {
    decimal_text(shard as nat) + seq!['.'] + decimal_text(realm as nat) + seq!['.'] + decimal_text(
        num as nat,
    )
}

/// The numbers of `num` or `shard.realm.num`, and whether all three were written.
pub open spec fn parse_nums(t: Seq<char>) -> Option<(u64, u64, u64, bool)> {
    let k = first_index(t, '.');
    if k < 0 {
        if is_u64_text(t) {
            Some((0, 0, decimal_value(t) as u64, false))
        } else {
            None
        }
    } else {
        let a = t.subrange(0, k);
        let rest = t.subrange(k + 1, t.len() as int);
        let k2 = first_index(rest, '.');
        if k2 < 0 {
            None
        } else {
            let b = rest.subrange(0, k2);
            let c = rest.subrange(k2 + 1, rest.len() as int);
            if is_u64_text(a) && is_u64_text(b) && is_u64_text(c) {
                Some((decimal_value(a) as u64, decimal_value(b) as u64, decimal_value(c) as u64, true))
            } else {
                None
            }
        }
    }
}

/// What the text of an entity id stands for: shard, realm, num and the checksum's letters.
///
/// The text up to the first `-` holds the numbers; after it stand exactly five lower-case
/// letters. A lone number is the num of shard 0, realm 0, and keeps no checksum.
pub open spec fn parse_entity_id(s: Seq<char>) -> Option<(u64, u64, u64, Option<Seq<u8>>)> {
    let k = first_index(s, '-');
    if k < 0 {
        match parse_nums(s) {
            Some((a, b, c, _)) => Some((a, b, c, None)),
            None => None,
        }
    } else {
        let cs = s.subrange(k + 1, s.len() as int);
        if !is_checksum_chars(cs) {
            None
        } else {
            match parse_nums(s.subrange(0, k)) {
                Some((a, b, c, three)) => if three {
                    Some((a, b, c, Some(checksum_bytes(cs))))
                } else {
                    Some((a, b, c, None))
                },
                None => None,
            }
        }
    }
}

/// `e` reports that `present` was found where the ledger expects `expected`.
pub open spec fn is_mismatch(
    e: Error,
    shard: u64,
    realm: u64,
    num: u64,
    present: Checksum,
    expected: Seq<u8>,
) -> bool {
    match e {
        Error::BadEntityId {
            shard: s,
            realm: r,
            num: n,
            present_checksum: p,
            expected_checksum: x,
        } => s == shard && r == realm && n == num && p == present && x@ == expected,
        _ => false,
    }
}

/// The ID of an entity on the network.
#[derive(Clone, Copy, Debug, PartialEq, Eq, Hash)]
pub struct EntityId {
    /// A non-negative number identifying the shard containing this entity.
    pub shard: u64,
    /// A non-negative number identifying the realm within the shard containing this entity.
    pub realm: u64,
    /// A non-negative number identifying the entity within the realm containing this entity.
    pub num: u64,
    /// A checksum, if the entity ID was read from text that included one.
    pub checksum: Option<Checksum>,
}

/// The letters of a checksum that may be absent.
pub open spec fn checksum_view(c: Option<Checksum>) -> Option<Seq<u8>> {
    match c {
        Some(c) => Some(c@),
        None => None,
    }
}

impl View for EntityId {
    type V = (u64, u64, u64, Option<Seq<u8>>);

    open spec fn view(&self) -> (u64, u64, u64, Option<Seq<u8>>) {
        (self.shard, self.realm, self.num, checksum_view(self.checksum))
    }
}

/// The text of an id holds only digits and dots.
pub proof fn lemma_id_text_chars(shard: u64, realm: u64, num: u64)
    ensures
        forall|i: int|
            0 <= i < id_text(shard, realm, num).len() ==> is_id_char(
                #[trigger] id_text(shard, realm, num)[i],
            ),
{
    crate::text::lemma_decimal_round_trip(shard as nat);
    crate::text::lemma_decimal_round_trip(realm as nat);
    crate::text::lemma_decimal_round_trip(num as nat);
    let a = decimal_text(shard as nat);
    let b = decimal_text(realm as nat);
    let c = decimal_text(num as nat);
    let t = id_text(shard, realm, num);
    assert forall|i: int| 0 <= i < t.len() implies is_id_char(#[trigger] t[i]) by {
        if i < a.len() {
            assert(t[i] == a[i]);
        } else if i == a.len() {
        } else if i < a.len() + 1 + b.len() {
            assert(t[i] == b[i - a.len() - 1]);
        } else if i == a.len() + 1 + b.len() {
        } else {
            assert(t[i] == c[i - a.len() - 2 - b.len()]);
        }
    }
}

/// The characters `t[from..to]`.
fn copy_chars(t: &Vec<char>, from: usize, to: usize) -> (r: Vec<char>)
    requires
        from <= to <= t@.len(),
    ensures
        r@ == t@.subrange(from as int, to as int),
{
    let mut r: Vec<char> = Vec::new();
    let mut i: usize = from;
    while i < to
        invariant
            from <= i <= to <= t@.len(),
            r@ == t@.subrange(from as int, i as int),
        decreases to - i,
    {
        r.push(t[i]);
        i = i + 1;
        assert(r@ =~= t@.subrange(from as int, i as int));
    }
    r
}

/// Reads `num` or `shard.realm.num`.
fn parse_nums_exec(t: &Vec<char>) -> (r: Option<(u64, u64, u64, bool)>)
    ensures
        r == parse_nums(t@),
{
    let len = t.len();
    assert(t@.subrange(0, len as int) =~= t@);
    match find_char(t, 0, '.') {
        None => {
            match parse_u64(t, 0, len) {
                Some(v) => Some((0, 0, v, false)),
                None => None,
            }
        },
        Some(k) => {
            let ghost rest = t@.subrange(k + 1, len as int);
            match find_char(t, k + 1, '.') {
                None => None,
                Some(k2) => {
                    assert(rest.subrange(0, k2 - k - 1) =~= t@.subrange(k + 1, k2 as int));
                    assert(rest.subrange(k2 - k - 1 + 1, rest.len() as int) =~= t@.subrange(
                        k2 + 1,
                        len as int,
                    ));
                    let a = parse_u64(t, 0, k);
                    let b = parse_u64(t, k + 1, k2);
                    let c = parse_u64(t, k2 + 1, len);
                    match (a, b, c) {
                        (Some(a), Some(b), Some(c)) => Some((a, b, c, true)),
                        _ => None,
                    }
                },
            }
        },
    }
}

impl EntityId {
    /// The text `shard.realm.num`, without the checksum.
    pub fn to_string(&self) -> (r: String)
        ensures
            r@ == id_text(self.shard, self.realm, self.num),
    {
        format_id(self.shard, self.realm, self.num)
    }

    /// Reads `num` or `shard.realm.num`, optionally followed by `-` and a checksum.
    pub fn from_str(s: &str) -> (r: Result<EntityId, Error>)
        ensures
            r is Ok <==> parse_entity_id(s@) is Some,
            r matches Ok(id) ==> id@ == parse_entity_id(s@)->0,
            r matches Err(e) ==> e == Error::BasicParse,
    {
        let t = chars_of(s);
        let len = t.len();
        assert(t@.subrange(0, len as int) =~= t@);
        match find_char(&t, 0, '-') {
            None => match parse_nums_exec(&t) {
                Some((shard, realm, num, _)) => Ok(EntityId { shard, realm, num, checksum: None }),
                None => Err(Error::BasicParse),
            },
            Some(k) => {
                let checksum = match Checksum::from_chars(&t, k + 1, len) {
                    Ok(c) => c,
                    Err(e) => {
                        return Err(e);
                    },
                };
                let nums = copy_chars(&t, 0, k);
                match parse_nums_exec(&nums) {
                    Some((shard, realm, num, three)) => {
                        if three {
                            Ok(EntityId { shard, realm, num, checksum: Some(checksum) })
                        } else {
                            Ok(EntityId { shard, realm, num, checksum: None })
                        }
                    },
                    None => Err(Error::BasicParse),
                }
            },
        }
    }

    /// Checks a checksum that is present against the one the ledger gives.
    fn validate_checksum_internal(
        shard: u64,
        realm: u64,
        num: u64,
        present_checksum: &Checksum,
        ledger_id: &LedgerId,
    ) -> (r: Result<(), Error>)
        ensures
            r is Ok <==> present_checksum@ == checksum_of(id_text(shard, realm, num), ledger_id@),
            r matches Err(e) ==> is_mismatch(
                e,
                shard,
                realm,
                num,
                *present_checksum,
                checksum_of(id_text(shard, realm, num), ledger_id@),
            ),
    {
        let text = format_id(shard, realm, num);
        proof {
            lemma_id_text_chars(shard, realm, num);
        }
        let expected_checksum = generate_checksum(text.as_str(), ledger_id);
        if *present_checksum != expected_checksum {
            Err(
                Error::BadEntityId {
                    shard,
                    realm,
                    num,
                    present_checksum: *present_checksum,
                    expected_checksum,
                },
            )
        } else {
            Ok(())
        }
    }

    /// Validates a checksum, if one is present, against a ledger.
    ///
    /// An absent checksum always passes.
    pub fn validate_checksum_for_ledger_id(
        shard: u64,
        realm: u64,
        num: u64,
        checksum: &Option<Checksum>,
        ledger_id: &LedgerId,
    ) -> (r: Result<(), Error>)
        ensures
            checksum is None ==> r is Ok,
            checksum matches Some(c) ==> (r is Ok <==> c@ == checksum_of(
                id_text(shard, realm, num),
                ledger_id@,
            )),
            r matches Err(e) ==> is_mismatch(
                e,
                shard,
                realm,
                num,
                checksum->0,
                checksum_of(id_text(shard, realm, num), ledger_id@),
            ),
    {
        match checksum {
            Some(present_checksum) => Self::validate_checksum_internal(
                shard,
                realm,
                num,
                present_checksum,
                ledger_id,
            ),
            None => Ok(()),
        }
    }

    /// Validates a checksum, if one is present, against the ledger a client is connected to.
    ///
    /// An absent checksum always passes; a present one cannot be checked without a ledger.
    pub fn validate_checksum(
        shard: u64,
        realm: u64,
        num: u64,
        checksum: &Option<Checksum>,
        ledger_id: Option<&LedgerId>,
    ) -> (r: Result<(), Error>)
        ensures
            checksum is None ==> r is Ok,
            checksum is Some && ledger_id is None ==> r == Err::<(), Error>(
                Error::CannotPerformTaskWithoutLedgerId { task: LedgerTask::ValidateChecksum },
            ),
            (checksum is Some && ledger_id is Some) ==> (r is Ok <==> checksum->0@ == checksum_of(
                id_text(shard, realm, num),
                ledger_id->0@,
            )),
            (checksum is Some && ledger_id is Some && r is Err) ==> is_mismatch(
                r->Err_0,
                shard,
                realm,
                num,
                checksum->0,
                checksum_of(id_text(shard, realm, num), ledger_id->0@),
            ),
    {
        match checksum {
            Some(present_checksum) => match ledger_id {
                Some(l) => Self::validate_checksum_internal(shard, realm, num, present_checksum, l),
                None => Err(
                    Error::CannotPerformTaskWithoutLedgerId { task: LedgerTask::ValidateChecksum },
                ),
            },
            None => Ok(()),
        }
    }

    /// The text of an id followed by `-` and its checksum on the client's ledger.
    pub fn to_string_with_checksum(entity_id_string: String, ledger_id: Option<&LedgerId>) -> (r:
        Result<String, Error>)
        requires
            forall|i: int|
                0 <= i < entity_id_string@.len() ==> is_id_char(#[trigger] entity_id_string@[i]),
        ensures
            ledger_id is None ==> r == Err::<String, Error>(
                Error::CannotPerformTaskWithoutLedgerId { task: LedgerTask::DeriveChecksum },
            ),
            ledger_id matches Some(l) ==> r matches Ok(t) && t@ == entity_id_string@ + seq!['-']
                + checksum_chars(checksum_of(entity_id_string@, l@)),
    {
        match ledger_id {
            Some(l) => {
                let checksum = generate_checksum(entity_id_string.as_str(), l);
                let mut r = entity_id_string;
                push_char(&mut r, '-');
                let c = checksum.to_string();
                r.append(c.as_str());
                Ok(r)
            },
            None => Err(
                Error::CannotPerformTaskWithoutLedgerId { task: LedgerTask::DeriveChecksum },
            ),
        }
    }
}

/// Writes `shard.realm.num`.
pub fn format_id(shard: u64, realm: u64, num: u64) -> (r: String)
    ensures
        r@ == id_text(shard, realm, num),
{
    let mut r = String::new();
    push_decimal(&mut r, shard);
    push_char(&mut r, '.');
    push_decimal(&mut r, realm);
    push_char(&mut r, '.');
    push_decimal(&mut r, num);
    assert(r@ =~= id_text(shard, realm, num));
    r
}

impl From<u64> for EntityId {
    fn from(num: u64) -> (r: EntityId) {
        EntityId { shard: 0, realm: 0, num, checksum: None }
    }
}

impl vstd::std_specs::convert::FromSpecImpl<u64> for EntityId {
    open spec fn obeys_from_spec() -> bool {
        true
    }

    open spec fn from_spec(num: u64) -> EntityId {
        EntityId { shard: 0, realm: 0, num, checksum: None }
    }
}

proof fn lemma_parse_nums_of_id_text(shard: u64, realm: u64, num: u64)
    ensures
        parse_nums(id_text(shard, realm, num)) == Some((shard, realm, num, true)),
{
    crate::text::lemma_decimal_round_trip(shard as nat);
    crate::text::lemma_decimal_round_trip(realm as nat);
    crate::text::lemma_decimal_round_trip(num as nat);
    let a = decimal_text(shard as nat);
    let b = decimal_text(realm as nat);
    let c = decimal_text(num as nat);
    let t = id_text(shard, realm, num);
    let k = a.len() as int;
    assert(is_u64_text(a) && is_u64_text(b) && is_u64_text(c));
    assert(forall|i: int| 0 <= i < a.len() ==> a[i] != '.' && t[i] == a[i]);
    assert(crate::text::is_first_index(t, '.', k));
    crate::text::lemma_first_index_unique(t, '.', k);
    let rest = t.subrange(k + 1, t.len() as int);
    assert(rest =~= b + seq!['.'] + c);
    let k2 = b.len() as int;
    assert(forall|i: int| 0 <= i < b.len() ==> b[i] != '.' && rest[i] == b[i]);
    assert(crate::text::is_first_index(rest, '.', k2));
    crate::text::lemma_first_index_unique(rest, '.', k2);
    assert(t.subrange(0, k) =~= a);
    assert(rest.subrange(0, k2) =~= b);
    assert(rest.subrange(k2 + 1, rest.len() as int) =~= c);
}

/// Formatting an id and reading the text back gives the same shard, realm and num, and no
/// checksum.
pub proof fn lemma_parse_format_round_trip(shard: u64, realm: u64, num: u64)
    ensures
        parse_entity_id(id_text(shard, realm, num)) == Some((shard, realm, num, None::<Seq<u8>>)),
{
    let t = id_text(shard, realm, num);
    lemma_id_text_chars(shard, realm, num);
    assert forall|i: int| 0 <= i < t.len() implies #[trigger] t[i] != '-' by {
        assert(is_id_char(t[i]));
    }
    crate::text::lemma_first_index_absent(t, '-');
    lemma_parse_nums_of_id_text(shard, realm, num);
}

/// Generating a checksum is a function of the id's text and the ledger's bytes alone, and
/// always gives five lower-case letters.
pub proof fn lemma_checksum_deterministic(s1: Seq<char>, l1: Seq<u8>, s2: Seq<char>, l2: Seq<u8>)
    requires
        s1 == s2,
        l1 == l2,
    ensures
        checksum_of(s1, l1) == checksum_of(s2, l2),
        is_checksum_text(checksum_of(s1, l1)),
{
}

proof fn lemma_checksum_is_text(s: Seq<char>, ledger: Seq<u8>)
    ensures
        is_checksum_text(checksum_of(s, ledger)),
{
}

proof fn lemma_text_with_checksum(shard: u64, realm: u64, num: u64, x: Seq<u8>)
    requires
        is_checksum_text(x),
    ensures
        parse_entity_id(id_text(shard, realm, num) + seq!['-'] + checksum_chars(x)) == Some(
            (shard, realm, num, Some(x)),
        ),
{
    let t = id_text(shard, realm, num);
    let k = checksum_chars(x);
    let u = t + seq!['-'] + k;
    lemma_id_text_chars(shard, realm, num);
    assert forall|i: int| 0 <= i < t.len() implies u[i] == t[i] && #[trigger] t[i] != '-' by {
        assert(is_id_char(t[i]));
    }
    assert(crate::text::is_first_index(u, '-', t.len() as int));
    crate::text::lemma_first_index_unique(u, '-', t.len() as int);
    assert(u.subrange(0, t.len() as int) =~= t);
    assert(u.subrange(t.len() as int + 1, u.len() as int) =~= k);
    assert(is_checksum_chars(k)) by {
        assert(forall|i: int| 0 <= i < 5 ==> #[trigger] k[i] == x[i] as char);
    }
    assert(checksum_bytes(k) =~= x);
    lemma_parse_nums_of_id_text(shard, realm, num);
}

/// The text of an id followed by `-` and the checksum that a ledger gives it reads back as
/// that id carrying that checksum: the one that validation against that ledger expects.
pub proof fn lemma_checksum_text_round_trip(shard: u64, realm: u64, num: u64, ledger: Seq<u8>)
    ensures
        parse_entity_id(
            id_text(shard, realm, num) + seq!['-'] + checksum_chars(
                checksum_of(id_text(shard, realm, num), ledger),
            ),
        ) == Some((shard, realm, num, Some(checksum_of(id_text(shard, realm, num), ledger)))),
{
    let x = checksum_of(id_text(shard, realm, num), ledger);
    lemma_checksum_is_text(id_text(shard, realm, num), ledger);
    lemma_text_with_checksum(shard, realm, num, x);
}

/// 256 to the `n`.
pub open spec fn pow256(n: nat) -> nat
    decreases n,
{
    if n == 0 {
        1
    } else {
        256 * pow256((n - 1) as nat)
    }
}

/// The number that big-endian bytes stand for.
pub open spec fn be_value(b: Seq<u8>) -> nat
    decreases b.len(),
{
    if b.len() == 0 {
        0
    } else {
        (be_value(b.drop_last()) * 256 + b.last()) as nat
    }
}

/// The low `n` bytes of a number, big-endian.
pub open spec fn be_bytes(v: nat, n: nat) -> Seq<u8>
    decreases n,
{
    if n == 0 {
        Seq::empty()
    } else {
        be_bytes(v / 256, (n - 1) as nat).push((v % 256) as u8)
    }
}

/// The 20-byte address form: shard in 4 bytes, realm and num in 8 each, big-endian.
pub open spec fn address_bytes(shard: u64, realm: u64, num: u64) -> Seq<u8> {
    be_bytes(shard as nat, 4) + be_bytes(realm as nat, 8) + be_bytes(num as nat, 8)
}

proof fn lemma_be_value_bound(b: Seq<u8>)
    ensures
        be_value(b) < pow256(b.len()),
    decreases b.len(),
{
    if b.len() > 0 {
        lemma_be_value_bound(b.drop_last());
        let v = be_value(b.drop_last());
        let p = pow256((b.len() - 1) as nat);
        let x = b.last();
        assert(v * 256 + x < 256 * p) by (nonlinear_arith)
            requires
                v < p,
                x < 256,
        ;
    }
}

proof fn lemma_pow256_grows(m: nat, n: nat)
    requires
        m <= n,
    ensures
        pow256(m) <= pow256(n),
    decreases n,
{
    if m < n {
        lemma_pow256_grows(m, (n - 1) as nat);
    }
}

/// The big-endian value of `b[from..to]`, at most eight bytes.
fn read_be(b: &[u8], from: usize, to: usize) -> (r: u64)
    requires
        from <= to <= b@.len(),
        to - from <= 8,
    ensures
        r == be_value(b@.subrange(from as int, to as int)),
{
    let ghost t = b@.subrange(from as int, to as int);
    let mut v: u64 = 0;
    let mut i: usize = from;
    proof {
        reveal_with_fuel(pow256, 9);
    }
    while i < to
        invariant
            from <= i <= to <= b@.len(),
            to - from <= 8,
            t == b@.subrange(from as int, to as int),
            v == be_value(t.subrange(0, i - from)),
            pow256(8) == 0x1_0000_0000_0000_0000,
        decreases to - i,
    {
        let ghost p = t.subrange(0, i - from + 1);
        assert(p.drop_last() =~= t.subrange(0, i - from));
        proof {
            lemma_be_value_bound(t.subrange(0, i - from));
            lemma_pow256_grows((i - from) as nat, 7);
            reveal_with_fuel(pow256, 9);
            let q = pow256(7);
            assert(v * 256 + 255 < 0x1_0000_0000_0000_0000) by (nonlinear_arith)
                requires
                    v < q,
                    q * 256 == 0x1_0000_0000_0000_0000,
            ;
        }
        v = v * 256 + b[i] as u64;
        i = i + 1;
    }
    assert(t.subrange(0, t.len() as int) =~= t);
    v
}

/// Appends the low `n` bytes of `v`, big-endian.
fn push_be(out: &mut Vec<u8>, v: u64, n: usize)
    ensures
        final(out)@ == old(out)@ + be_bytes(v as nat, n as nat),
    decreases n,
{
    if n > 0 {
        push_be(out, v / 256, n - 1);
        out.push((v % 256) as u8);
        assert(final(out)@ =~= old(out)@ + be_bytes(v as nat, n as nat));
    } else {
        assert(final(out)@ =~= old(out)@ + be_bytes(v as nat, n as nat));
    }
}

/// Reading back the low `n` bytes of a number below 256 to the `n` gives the number.
proof fn lemma_be_round_trip(v: nat, n: nat)
    requires
        v < pow256(n),
    ensures
        be_value(be_bytes(v, n)) == v,
        be_bytes(v, n).len() == n,
    decreases n,
{
    if n > 0 {
        let p = pow256((n - 1) as nat);
        vstd::arithmetic::div_mod::lemma_fundamental_div_mod(v as int, 256);
        assert(v / 256 < p) by (nonlinear_arith)
            requires
                v < 256 * p,
                v == 256 * (v / 256) + v % 256,
                v % 256 >= 0,
        ;
        lemma_be_round_trip(v / 256, (n - 1) as nat);
        let b = be_bytes(v, n);
        assert(b.drop_last() =~= be_bytes(v / 256, (n - 1) as nat));
    }
}

impl EntityId {
    /// Reads the 20-byte address form.
    pub fn from_address_bytes(bytes: &[u8]) -> (r: Result<EntityId, Error>)
        ensures
            r is Ok <==> bytes@.len() == 20,
            r matches Ok(id) ==> id.shard == be_value(bytes@.subrange(0, 4)) && id.realm
                == be_value(bytes@.subrange(4, 12)) && id.num == be_value(bytes@.subrange(12, 20))
                && id.checksum is None,
            r matches Err(e) ==> e == Error::BasicParse,
    {
        if bytes.len() != 20 {
            return Err(Error::BasicParse);
        }
        let shard = read_be(bytes, 0, 4);
        let realm = read_be(bytes, 4, 12);
        let num = read_be(bytes, 12, 20);
        Ok(EntityId { shard, realm, num, checksum: None })
    }

    /// The 20-byte address form; the shard must fit in four bytes.
    pub fn to_address_bytes(&self) -> (r: Result<Vec<u8>, Error>)
        ensures
            r is Ok <==> self.shard <= u32::MAX,
            r matches Ok(b) ==> b@ == address_bytes(self.shard, self.realm, self.num),
            r matches Err(e) ==> e == Error::BasicParse,
    {
        if self.shard > 0xffff_ffff {
            return Err(Error::BasicParse);
        }
        let mut out: Vec<u8> = Vec::new();
        push_be(&mut out, self.shard, 4);
        push_be(&mut out, self.realm, 8);
        push_be(&mut out, self.num, 8);
        assert(out@ =~= address_bytes(self.shard, self.realm, self.num));
        Ok(out)
    }

    /// Reads an address written as 40 hex digits, with or without a leading `0x`.
    pub fn from_solidity_address(address: &str) -> (r: Result<EntityId, Error>)
        ensures
            r is Ok <==> is_hex_text(unprefixed(address@)) && hex_bytes(unprefixed(address@)).len()
                == 20,
            r matches Ok(id) ==> id@ == address_id(hex_bytes(unprefixed(address@))),
            r matches Err(e) ==> e == Error::BasicParse,
    {
        let t = chars_of(address);
        let digits: &str = if t.len() >= 2 && t[0] == '0' && t[1] == 'x' {
            address.substring_char(2, t.len())
        } else {
            address.substring_char(0, t.len())
        };
        assert(digits@ == unprefixed(address@));
        match hex_decode(digits) {
            Ok(bytes) => {
                proof {
                    lemma_hex_bytes_len(digits@);
                }
                match EntityId::from_address_bytes(bytes.as_slice()) {
                    Ok(id) => Ok(id),
                    Err(e) => Err(e),
                }
            },
            Err(_) => Err(Error::BasicParse),
        }
    }

    /// The address form as 40 lower-case hex digits; the shard must fit in four bytes.
    pub fn to_solidity_address(&self) -> (r: Result<String, Error>)
        ensures
            r is Ok <==> self.shard <= u32::MAX,
            r matches Ok(s) ==> s@ == hex_lower(address_bytes(self.shard, self.realm, self.num)),
            r matches Err(e) ==> e == Error::BasicParse,
    {
        match self.to_address_bytes() {
            Ok(b) => Ok(hex_encode(b.as_slice())),
            Err(e) => Err(e),
        }
    }
}

/// Address text without its `0x`, if it has one.
pub open spec fn unprefixed(s: Seq<char>) -> Seq<char> {
    if s.len() >= 2 && s[0] == '0' && s[1] == 'x' {
        s.subrange(2, s.len() as int)
    } else {
        s
    }
}

/// The id that 20 address bytes stand for.
pub open spec fn address_id(b: Seq<u8>) -> (u64, u64, u64, Option<Seq<u8>>) {
    (
        be_value(b.subrange(0, 4)) as u64,
        be_value(b.subrange(4, 12)) as u64,
        be_value(b.subrange(12, 20)) as u64,
        None,
    )
}

/// The address form of an id reads back as the id, without its checksum.
pub proof fn lemma_address_round_trip(shard: u64, realm: u64, num: u64)
    requires
        shard <= u32::MAX,
    ensures
        address_bytes(shard, realm, num).len() == 20,
        address_id(address_bytes(shard, realm, num)) == (shard, realm, num, None::<Seq<u8>>),
{
    reveal_with_fuel(pow256, 9);
    lemma_be_round_trip(shard as nat, 4);
    lemma_be_round_trip(realm as nat, 8);
    lemma_be_round_trip(num as nat, 8);
    let b = address_bytes(shard, realm, num);
    assert(b.subrange(0, 4) =~= be_bytes(shard as nat, 4));
    assert(b.subrange(4, 12) =~= be_bytes(realm as nat, 8));
    assert(b.subrange(12, 20) =~= be_bytes(num as nat, 8));
}

} // verus!
