//! Transaction-shape validator.
//!
//! A serialized transaction block is accepted only when it matches one strict
//! shape: a list of pure byte inputs followed by exactly one move-call
//! command whose function name carries the approval prefix and whose
//! arguments begin with one or more fixed-length identity inputs.  The wire
//! grammar is defined here as a spec-level parser, and the executable parser
//! returns exactly what the grammar yields — on every byte string.

use vstd::prelude::*;
use vstd::string::StringSliceAdditionalSpecFns;

use crate::errors::InternalError;

verus! {

/// Byte length of an on-chain address, and of an identity argument.
pub const ID_LENGTH: usize = 32;

/// One canonical unsigned LEB128 number below 2^32, read at `pos`.
/// Yields the value and the position after it.
pub open spec fn uleb_parse(s: Seq<u8>, pos: int) -> Option<(nat, int)>
    decreases s.len() - pos,
{
    if pos < 0 || pos >= s.len() {
        None
    } else {
        let b = s[pos];
        if b < 128 {
            Some((b as nat, pos + 1))
        } else {
            match uleb_parse(s, pos + 1) {
                Some((rest, p)) => {
                    if rest == 0 {
                        None  // shortest form only: the continuation must carry value
                    } else {
                        let value: nat = (b - 128) as nat + 128 * rest;
                        if value < 0x1_0000_0000 {
                            Some((value, p))
                        } else {
                            None
                        }
                    }
                },
                None => None,
            }
        }
    }
}

/// `n` raw bytes read at `pos`.
pub open spec fn bytes_parse(s: Seq<u8>, pos: int, n: nat) -> Option<(Seq<u8>, int)> {
    if 0 <= pos && pos + n <= s.len() {
        Some((s.subrange(pos, pos + n), pos + n))
    } else {
        None
    }
}

/// A length-prefixed byte string.
pub open spec fn vec_u8_parse(s: Seq<u8>, pos: int) -> Option<(Seq<u8>, int)> {
    match uleb_parse(s, pos) {
        Some((n, p)) => bytes_parse(s, p, n),
        None => None,
    }
}

/// `count` pure inputs, each a tag byte 0 and a length-prefixed byte string.
pub open spec fn inputs_parse(s: Seq<u8>, pos: int, count: nat) -> Option<(Seq<Seq<u8>>, int)>
    decreases count,
{
    if count == 0 {
        Some((Seq::empty(), pos))
    } else if 0 <= pos < s.len() && s[pos] == 0 {
        match vec_u8_parse(s, pos + 1) {
            Some((bytes, p)) => match inputs_parse(s, p, (count - 1) as nat) {
                Some((rest, p2)) => Some((seq![bytes] + rest, p2)),
                None => None,
            },
            None => None,
        }
    } else {
        None
    }
}

/// `count` call arguments, each a tag byte 1 and a little-endian input index.
pub open spec fn args_parse(s: Seq<u8>, pos: int, count: nat) -> Option<(Seq<u16>, int)>
    decreases count,
{
    if count == 0 {
        Some((Seq::empty(), pos))
    } else if 0 <= pos && pos + 3 <= s.len() && s[pos] == 1 {
        let index: u16 = (s[pos + 1] + 256 * s[pos + 2]) as u16;
        match args_parse(s, pos + 3, (count - 1) as nat) {
            Some((rest, p)) => Some((seq![index] + rest, p)),
            None => None,
        }
    } else {
        None
    }
}

/// A well-formed move identifier: nonempty ASCII, a letter or underscore
/// first, letters, digits and underscores after.
pub open spec fn ident_wf(b: Seq<u8>) -> bool {
    &&& 0 < b.len() <= 128
    &&& (65 <= b[0] <= 90 || 97 <= b[0] <= 122 || b[0] == 95)
    &&& forall|i: int| 0 < i < b.len() ==> (
            65 <= #[trigger] b[i] <= 90 || 97 <= b[i] <= 122 || 48 <= b[i] <= 57 || b[i] == 95
        )
}

/// Everything one decoded transaction block holds.
pub struct PtbRaw {
    pub inputs: Seq<Seq<u8>>,
    pub pkg: Seq<u8>,
    pub module: Seq<u8>,
    pub function: Seq<u8>,
    pub args: Seq<u16>,
}

/// The whole transaction-block grammar: inputs, then exactly one move-call
/// command with no type arguments, with nothing left over.
pub open spec fn ptb_parse(s: Seq<u8>) -> Option<PtbRaw> {
    match uleb_parse(s, 0) {
        Some((n_inputs, p1)) => match inputs_parse(s, p1, n_inputs) {
            Some((inputs, p2)) => match uleb_parse(s, p2) {
                Some((n_cmds, p3)) => {
                    if n_cmds != 1 || !(0 <= p3 < s.len() && s[p3] == 0) {
                        None
                    } else {
                        match bytes_parse(s, p3 + 1, ID_LENGTH as nat) {
                            Some((pkg, p4)) => match vec_u8_parse(s, p4) {
                                Some((module, p5)) => match vec_u8_parse(s, p5) {
                                    Some((function, p6)) => {
                                        if !(ident_wf(module) && ident_wf(function))
                                            || !(0 <= p6 < s.len() && s[p6] == 0) {
                                            None
                                        } else {
                                            match uleb_parse(s, p6 + 1) {
                                                Some((n_args, p7)) => match args_parse(s, p7, n_args) {
                                                    Some((args, p8)) => {
                                                        if p8 == s.len() {
                                                            Some(PtbRaw { inputs, pkg, module, function, args })
                                                        } else {
                                                            None
                                                        }
                                                    },
                                                    None => None,
                                                },
                                                None => None,
                                            }
                                        }
                                    },
                                    None => None,
                                },
                                None => None,
                            },
                            None => None,
                        }
                    }
                },
                None => None,
            },
            None => None,
        },
        None => None,
    }
}

/// The function-name prefix that marks an approval predicate.
pub open spec fn approve_prefix() -> Seq<u8> {
    seq![115u8, 101u8, 97u8, 108u8, 95u8, 97u8, 112u8, 112u8, 114u8, 111u8, 118u8, 101u8]
}

/// `p` is a prefix of `s`.
pub open spec fn prefix_of(p: Seq<u8>, s: Seq<u8>) -> bool {
    p.len() <= s.len() && s.take(p.len() as int) == p
}

/// How many leading arguments name an identity: an in-range input of exactly
/// `ID_LENGTH` bytes.
pub open spec fn id_arg_count(args: Seq<u16>, inputs: Seq<Seq<u8>>) -> nat
    decreases args.len(),
{
    if args.len() == 0 {
        0
    } else if args[0] < inputs.len() && inputs[args[0] as int].len() == ID_LENGTH {
        1 + id_arg_count(args.drop_first(), inputs)
    } else {
        0
    }
}

/// The leading identity arguments themselves, in argument order.
pub open spec fn id_args(args: Seq<u16>, inputs: Seq<Seq<u8>>) -> Seq<Seq<u8>> {
    Seq::new(id_arg_count(args, inputs), |i: int| inputs[args[i] as int])
}

/// What a validated transaction block exposes.
pub struct PtbView {
    pub pkg: Seq<u8>,
    pub module: Seq<u8>,
    pub function: Seq<u8>,
    pub ids: Seq<Seq<u8>>,
}

/// The accepted shapes: the grammar matches, the function name carries the
/// approval prefix, and at least one identity argument leads the call.
pub open spec fn ptb_validate(s: Seq<u8>) -> Option<PtbView> {
    match ptb_parse(s) {
        Some(raw) => {
            if prefix_of(approve_prefix(), raw.function)
                && id_arg_count(raw.args, raw.inputs) >= 1 {
                Some(PtbView {
                    pkg: raw.pkg,
                    module: raw.module,
                    function: raw.function,
                    ids: id_args(raw.args, raw.inputs),
                })
            } else {
                None
            }
        },
        None => None,
    }
}

/// A validated transaction block: the target package, the called function,
/// and the identity byte strings whose keys the caller requests.
pub struct ValidPtb {
    pkg_id: Vec<u8>,
    module: Vec<u8>,
    function: Vec<u8>,
    inner_ids: Vec<Vec<u8>>,
}

impl ValidPtb {
    /// Every value of the type comes out of the parser: identifiers are
    /// well formed and the package address has its fixed width.
    #[verifier::type_invariant]
    closed spec fn type_wf(self) -> bool {
        &&& ident_wf(self.module@)
        &&& ident_wf(self.function@)
        &&& self.pkg_id@.len() == ID_LENGTH
    }
}

impl View for ValidPtb {
    type V = PtbView;

    closed spec fn view(&self) -> PtbView {
        PtbView {
            pkg: self.pkg_id@,
            module: self.module@,
            function: self.function@,
            ids: self.inner_ids.deep_view(),
        }
    }
}

impl ValidPtb {
    /// Address of the package whose function the transaction calls.
    pub fn pkg_id(&self) -> (r: &Vec<u8>)
        ensures
            r@ == self@.pkg,
    {
        &self.pkg_id
    }

    /// Name of the called module.
    pub fn module_name(&self) -> (r: &Vec<u8>)
        ensures
            r@ == self@.module,
    {
        &self.module
    }

    /// Name of the called function.
    pub fn function_name(&self) -> (r: &Vec<u8>)
        ensures
            r@ == self@.function,
    {
        &self.function
    }

    /// The identity byte strings named by the transaction, in call order.
    pub fn inner_ids(&self) -> (r: &Vec<Vec<u8>>)
        ensures
            r.deep_view() == self@.ids,
    {
        &self.inner_ids
    }

    /// Whether the transaction calls exactly the given package, module and
    /// function.
    pub fn matches_target(&self, pkg: &Vec<u8>, module: &str, function: &str) -> (r: bool)
        ensures
            r == (self@.pkg == pkg@ && self@.module == module.spec_bytes()
                && self@.function == function.spec_bytes()),
    {
        bytes_eq(&self.pkg_id, pkg)
            && crate::encoding::slice_eq(self.module.as_slice(), module.as_bytes())
            && crate::encoding::slice_eq(self.function.as_slice(), function.as_bytes())
    }

    /// The fully qualified name of the called function:
    /// `0x<package hex>::<module>::<function>`.
    pub fn full_function(&self) -> (r: String)
        ensures
            r@ == "0x"@ + crate::encoding::hex_of(self@.pkg) + "::"@
                + crate::encoding::ascii_chars_of(self@.module) + "::"@
                + crate::encoding::ascii_chars_of(self@.function),
    {
        proof {
            use_type_invariant(self);
        }
        let mut r = String::from_str("0x");
        let hex = crate::encoding::to_hex(self.pkg_id.as_slice());
        r.append(hex.as_str());
        r.append("::");
        let module = crate::encoding::ascii_to_string(&self.module);
        r.append(module.as_str());
        r.append("::");
        let function = crate::encoding::ascii_to_string(&self.function);
        r.append(function.as_str());
        r
    }
}

/// A fresh copy of a byte vector.
pub fn copy_bytes(v: &Vec<u8>) -> (r: Vec<u8>)
    ensures
        r@ == v@,
{
    let mut r: Vec<u8> = Vec::new();
    for i in 0..v.len()
        invariant
            r@ =~= v@.take(i as int),
    {
        r.push(v[i]);
        proof {
            assert(v@.take(i + 1) =~= v@.take(i as int).push(v@[i as int]));
        }
    }
    proof {
        assert(v@.take(v@.len() as int) == v@);
    }
    r
}

/// Reads one canonical LEB128 number; agrees with `uleb_parse` everywhere.
fn uleb_read(s: &[u8], pos: usize) -> (r: Option<(u32, usize)>)
    ensures
        match r {
            Some((v, p)) => uleb_parse(s@, pos as int) == Some((v as nat, p as int)),
            None => uleb_parse(s@, pos as int) is None,
        },
    decreases s@.len() - pos,
{
    if pos >= s.len() {
        None
    } else {
        let b = s[pos];
        if b < 128 {
            Some((b as u32, pos + 1))
        } else {
            match uleb_read(s, pos + 1) {
                Some((rest, p)) => {
                    if rest == 0 {
                        None
                    } else {
                        let value: u64 = (b - 128) as u64 + 128u64 * rest as u64;
                        if value < 0x1_0000_0000 {
                            Some((value as u32, p))
                        } else {
                            None
                        }
                    }
                },
                None => None,
            }
        }
    }
}

/// Reads `n` raw bytes; agrees with `bytes_parse` everywhere.
fn bytes_read(s: &[u8], pos: usize, n: usize) -> (r: Option<(Vec<u8>, usize)>)
    ensures
        match r {
            Some((v, p)) => bytes_parse(s@, pos as int, n as nat) == Some((v@, p as int)),
            None => bytes_parse(s@, pos as int, n as nat) is None,
        },
{
    let slen = s.len();
    if pos <= slen && n <= slen - pos {
        let mut v: Vec<u8> = Vec::new();
        for j in 0..n
            invariant
                pos + n <= s@.len(),
                s@.len() <= usize::MAX,
                v@ =~= s@.subrange(pos as int, pos + j),
        {
            v.push(s[pos + j]);
            proof {
                assert(s@.subrange(pos as int, pos + j + 1)
                    =~= s@.subrange(pos as int, pos + j).push(s@[pos + j]));
            }
        }
        Some((v, pos + n))
    } else {
        None
    }
}

/// Reads one length-prefixed byte string; agrees with `vec_u8_parse`.
fn vec_u8_read(s: &[u8], pos: usize) -> (r: Option<(Vec<u8>, usize)>)
    ensures
        match r {
            Some((v, p)) => vec_u8_parse(s@, pos as int) == Some((v@, p as int)),
            None => vec_u8_parse(s@, pos as int) is None,
        },
{
    match uleb_read(s, pos) {
        Some((n, p)) => {
            if n as u64 <= usize::MAX as u64 {
                bytes_read(s, p, n as usize)
            } else {
                proof {
                    assert(s@.len() <= usize::MAX);
                    assert(bytes_parse(s@, p as int, n as nat) is None);
                }
                None
            }
        },
        None => None,
    }
}

/// A parsed prefix of inputs joined with the outcome for the rest.
pub open spec fn inputs_prepend(
    prefix: Seq<Seq<u8>>,
    rest: Option<(Seq<Seq<u8>>, int)>,
) -> Option<(Seq<Seq<u8>>, int)> {
    match rest {
        Some((d, p)) => Some((prefix + d, p)),
        None => None,
    }
}

/// Reads `count` pure inputs; agrees with `inputs_parse` everywhere.
fn inputs_read(s: &[u8], pos: usize, count: u32) -> (r: Option<(Vec<Vec<u8>>, usize)>)
    ensures
        match r {
            Some((v, p)) => inputs_parse(s@, pos as int, count as nat)
                == Some((v.deep_view(), p as int)),
            None => inputs_parse(s@, pos as int, count as nat) is None,
        },
{
    let mut acc: Vec<Vec<u8>> = Vec::new();
    let mut cur: usize = pos;
    let mut j: u32 = 0;
    while j < count
        invariant
            j <= count,
            inputs_parse(s@, pos as int, count as nat)
                == inputs_prepend(acc.deep_view(), inputs_parse(s@, cur as int, (count - j) as nat)),
        decreases count - j,
    {
        let ghost tail_count = (count - j) as nat;
        if cur >= s.len() || s[cur] != 0 {
            proof {
                assert(inputs_parse(s@, cur as int, tail_count) is None);
            }
            return None;
        }
        match vec_u8_read(s, cur + 1) {
            Some((bytes, p)) => {
                let ghost acc_before = acc.deep_view();
                let ghost bv = bytes@;
                let ghost cur0 = cur as int;
                acc.push(bytes);
                proof {
                    assert(acc.deep_view() =~~= acc_before.push(bv));
                    let next = inputs_parse(s@, p as int, (tail_count - 1) as nat);
                    match next {
                        Some((rest, p2)) => {
                            assert(inputs_parse(s@, cur0, tail_count) == Some((seq![bv] + rest, p2)));
                            assert(acc_before + (seq![bv] + rest) =~~= acc_before.push(bv) + rest);
                        },
                        None => {
                            assert(inputs_parse(s@, cur0, tail_count) is None);
                        },
                    }
                }
                cur = p;
                j = j + 1;
            },
            None => {
                proof {
                    assert(inputs_parse(s@, cur as int, tail_count) is None);
                }
                return None;
            },
        }
    }
    proof {
        assert(inputs_parse(s@, cur as int, 0) == Some((Seq::<Seq<u8>>::empty(), cur as int)));
        assert(acc.deep_view() + Seq::<Seq<u8>>::empty() =~= acc.deep_view());
    }
    Some((acc, cur))
}

/// A parsed prefix of arguments joined with the outcome for the rest.
pub open spec fn args_prepend(
    prefix: Seq<u16>,
    rest: Option<(Seq<u16>, int)>,
) -> Option<(Seq<u16>, int)> {
    match rest {
        Some((d, p)) => Some((prefix + d, p)),
        None => None,
    }
}

/// Reads `count` call arguments; agrees with `args_parse` everywhere.
fn args_read(s: &[u8], pos: usize, count: u32) -> (r: Option<(Vec<u16>, usize)>)
    ensures
        match r {
            Some((v, p)) => args_parse(s@, pos as int, count as nat) == Some((v@, p as int)),
            None => args_parse(s@, pos as int, count as nat) is None,
        },
{
    let mut acc: Vec<u16> = Vec::new();
    let mut cur: usize = pos;
    let mut j: u32 = 0;
    while j < count
        invariant
            j <= count,
            args_parse(s@, pos as int, count as nat)
                == args_prepend(acc@, args_parse(s@, cur as int, (count - j) as nat)),
        decreases count - j,
    {
        let ghost tail_count = (count - j) as nat;
        if cur >= s.len() || s.len() - cur < 3 || s[cur] != 1 {
            proof {
                assert(args_parse(s@, cur as int, tail_count) is None);
            }
            return None;
        }
        let index: u16 = s[cur + 1] as u16 + 256 * (s[cur + 2] as u16);
        let ghost acc_before = acc@;
        let ghost cur0 = cur as int;
        acc.push(index);
        proof {
            assert(acc@ =~= acc_before.push(index));
            let next = args_parse(s@, cur0 + 3, (tail_count - 1) as nat);
            match next {
                Some((rest, p2)) => {
                    assert(args_parse(s@, cur0, tail_count) == Some((seq![index] + rest, p2)));
                    assert(acc_before + (seq![index] + rest) =~= acc_before.push(index) + rest);
                },
                None => {
                    assert(args_parse(s@, cur0, tail_count) is None);
                },
            }
        }
        cur = cur + 3;
        j = j + 1;
    }
    proof {
        assert(args_parse(s@, cur as int, 0) == Some((Seq::<u16>::empty(), cur as int)));
        assert(acc@ + Seq::<u16>::empty() =~= acc@);
    }
    Some((acc, cur))
}

/// Whether one byte is acceptable at position `i` of an identifier.
fn ident_byte_ok(b: u8, first: bool) -> (r: bool)
    ensures
        r == if first {
            65 <= b <= 90 || 97 <= b <= 122 || b == 95
        } else {
            65 <= b <= 90 || 97 <= b <= 122 || 48 <= b <= 57 || b == 95
        },
{
    (65 <= b && b <= 90) || (97 <= b && b <= 122) || b == 95 || (!first && 48 <= b && b <= 57)
}

/// Whether a byte string is a well-formed move identifier.
fn ident_check(b: &Vec<u8>) -> (r: bool)
    ensures
        r == ident_wf(b@),
{
    if b.len() == 0 || b.len() > 128 {
        return false;
    }
    if !ident_byte_ok(b[0], true) {
        return false;
    }
    let mut i: usize = 1;
    while i < b.len()
        invariant
            1 <= i <= b@.len(),
            forall|k: int| 0 < k < i ==> (
                65 <= #[trigger] b@[k] <= 90 || 97 <= b@[k] <= 122 || 48 <= b@[k] <= 57 || b@[k] == 95
            ),
        decreases b@.len() - i,
    {
        if !ident_byte_ok(b[i], false) {
            return false;
        }
        i = i + 1;
    }
    true
}

/// Whether `p` is a prefix of `s`.
pub fn is_prefix(p: &Vec<u8>, s: &Vec<u8>) -> (r: bool)
    ensures
        r == prefix_of(p@, s@),
{
    if p.len() > s.len() {
        assert(!prefix_of(p@, s@));
        return false;
    }
    for i in 0..p.len()
        invariant
            p@.len() <= s@.len(),
            forall|k: int| 0 <= k < i ==> p@[k] == s@[k],
    {
        if p[i] != s[i] {
            assert(s@.take(p@.len() as int)[i as int] != p@[i as int]);
            return false;
        }
    }
    proof {
        assert(s@.take(p@.len() as int) =~= p@);
    }
    true
}

/// Whether two byte strings are equal.
pub fn bytes_eq(a: &Vec<u8>, b: &Vec<u8>) -> (r: bool)
    ensures
        r == (a@ == b@),
{
    if a.len() != b.len() {
        return false;
    }
    for i in 0..a.len()
        invariant
            a@.len() == b@.len(),
            forall|k: int| 0 <= k < i ==> a@[k] == b@[k],
    {
        if a[i] != b[i] {
            return false;
        }
    }
    proof {
        assert(a@ =~= b@);
    }
    true
}

/// The function-name prefix that marks an approval predicate, as bytes.
fn approve_prefix_bytes() -> (r: Vec<u8>)
    ensures
        r@ == approve_prefix(),
{
    let mut v: Vec<u8> = Vec::new();
    v.push(115); v.push(101); v.push(97); v.push(108);  // seal
    v.push(95);                                         // _
    v.push(97); v.push(112); v.push(112); v.push(114);  // appr
    v.push(111); v.push(118); v.push(101);              // ove
    proof {
        assert(v@ =~= approve_prefix());
    }
    v
}

impl ValidPtb {
    /// Validates a serialized transaction block.  Returns the validated
    /// transaction exactly when the byte string matches the accepted shape,
    /// and `InvalidPTB` otherwise; it never panics.
    pub fn try_parse(bytes: &[u8]) -> (r: Result<ValidPtb, InternalError>)
        ensures
            match r {
                Ok(v) => ptb_validate(bytes@) == Some(v@),
                Err(e) => ptb_validate(bytes@) is None && e == InternalError::InvalidPTB,
            },
    {
        let (n_inputs, p1) = match uleb_read(bytes, 0) {
            Some(x) => x,
            None => { return Err(InternalError::InvalidPTB); },
        };
        let (inputs, p2) = match inputs_read(bytes, p1, n_inputs) {
            Some(x) => x,
            None => { return Err(InternalError::InvalidPTB); },
        };
        let (n_cmds, p3) = match uleb_read(bytes, p2) {
            Some(x) => x,
            None => { return Err(InternalError::InvalidPTB); },
        };
        if n_cmds != 1 || p3 >= bytes.len() || bytes[p3] != 0 {
            return Err(InternalError::InvalidPTB);
        }
        let (pkg, p4) = match bytes_read(bytes, p3 + 1, ID_LENGTH) {
            Some(x) => x,
            None => { return Err(InternalError::InvalidPTB); },
        };
        let (module, p5) = match vec_u8_read(bytes, p4) {
            Some(x) => x,
            None => { return Err(InternalError::InvalidPTB); },
        };
        let (function, p6) = match vec_u8_read(bytes, p5) {
            Some(x) => x,
            None => { return Err(InternalError::InvalidPTB); },
        };
        if !ident_check(&module) || !ident_check(&function)
            || p6 >= bytes.len() || bytes[p6] != 0 {
            return Err(InternalError::InvalidPTB);
        }
        let (n_args, p7) = match uleb_read(bytes, p6 + 1) {
            Some(x) => x,
            None => { return Err(InternalError::InvalidPTB); },
        };
        let (args, p8) = match args_read(bytes, p7, n_args) {
            Some(x) => x,
            None => { return Err(InternalError::InvalidPTB); },
        };
        if p8 != bytes.len() {
            return Err(InternalError::InvalidPTB);
        }
        let ghost raw = PtbRaw {
            inputs: inputs.deep_view(),
            pkg: pkg@,
            module: module@,
            function: function@,
            args: args@,
        };
        proof {
            assert(ptb_parse(bytes@) == Some(raw));
        }

        let prefix = approve_prefix_bytes();
        if !is_prefix(&prefix, &function) {
            return Err(InternalError::InvalidPTB);
        }

        // Count the leading identity arguments.
        proof {
            assert(args@.skip(0) == args@);
        }
        let mut k: usize = 0;
        while k < args.len()
            && (args[k] as usize) < inputs.len()
            && inputs[args[k] as usize].len() == ID_LENGTH
            invariant
                k <= args@.len(),
                inputs.deep_view().len() == inputs@.len(),
                forall|i: int| 0 <= i < inputs@.len()
                    ==> #[trigger] inputs.deep_view()[i] == inputs@[i]@,
                forall|i: int| 0 <= i < k ==> #[trigger] args@[i] < inputs@.len()
                    && inputs@[args@[i] as int]@.len() == ID_LENGTH,
                id_arg_count(args@, inputs.deep_view())
                    == k + id_arg_count(args@.skip(k as int), inputs.deep_view()),
            decreases args@.len() - k,
        {
            proof {
                let tail = args@.skip(k as int);
                assert(tail[0] == args@[k as int]);
                assert(tail.drop_first() =~= args@.skip(k as int + 1));
                assert(id_arg_count(tail, inputs.deep_view())
                    == 1 + id_arg_count(tail.drop_first(), inputs.deep_view()));
            }
            k = k + 1;
        }
        proof {
            let tail = args@.skip(k as int);
            if k < args@.len() {
                assert(tail[0] == args@[k as int]);
                assert(id_arg_count(tail, inputs.deep_view()) == 0);
            } else {
                assert(tail =~= Seq::<u16>::empty());
            }
            assert(id_arg_count(args@, inputs.deep_view()) == k as nat);
        }
        if k == 0 {
            return Err(InternalError::InvalidPTB);
        }

        let mut ids: Vec<Vec<u8>> = Vec::new();
        for i in 0..k
            invariant
                k <= args@.len(),
                id_arg_count(args@, inputs.deep_view()) == k as nat,
                inputs.deep_view().len() == inputs@.len(),
                forall|j: int| 0 <= j < inputs@.len()
                    ==> #[trigger] inputs.deep_view()[j] == inputs@[j]@,
                forall|j: int| 0 <= j < k ==> #[trigger] args@[j] < inputs@.len(),
                ids.deep_view() =~= id_args(args@, inputs.deep_view()).take(i as int),
            {
            proof {
                assert(id_args(args@, inputs.deep_view())[i as int]
                    == inputs.deep_view()[args@[i as int] as int]);
            }
            let ghost ids_before = ids.deep_view();
            let id = copy_bytes(&inputs[args[i] as usize]);
            let ghost id_view = id@;
            ids.push(id);
            proof {
                assert(ids.deep_view() =~= ids_before.push(id_view));
                assert(id_args(args@, inputs.deep_view()).take(i + 1)
                    =~= id_args(args@, inputs.deep_view()).take(i as int)
                        .push(id_args(args@, inputs.deep_view())[i as int]));
            }
        }
        proof {
            assert(id_args(args@, inputs.deep_view()).take(k as int)
                =~= id_args(args@, inputs.deep_view()));
        }

        let v = ValidPtb { pkg_id: pkg, module, function, inner_ids: ids };
        proof {
            assert(ptb_validate(bytes@) == Some(v@));
        }
        Ok(v)
    }
}

} // verus!
