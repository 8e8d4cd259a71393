use vstd::prelude::*;
use vstd::utf8::encode_utf8;

use crate::eth::le_bytes;
use crate::state::{Service, VerificationMethod};

verus! {

/// The encoding of a length or count: four little-endian bytes.
pub open spec fn enc_u32(n: nat) -> Seq<u8> {
    le_bytes(n, 4)
}

/// The encoding of a byte string: its length, then the bytes.
pub open spec fn enc_bytes(b: Seq<u8>) -> Seq<u8> {
    enc_u32(b.len()) + b
}

/// The encoding of a text: its UTF-8 bytes as a byte string.
pub open spec fn enc_string(s: Seq<char>) -> Seq<u8> {
    enc_bytes(encode_utf8(s))
}

/// True when a text's length fits its length prefix.
pub open spec fn string_fits(s: Seq<char>) -> bool {
    encode_utf8(s).len() <= u32::MAX
}

/// The encoding of a verification method: fragment, flags, key type, key.
pub open spec fn enc_vm(vm: VerificationMethod) -> Seq<u8> {
    enc_string(vm.fragment@) + le_bytes(vm.flags as nat, 2) + seq![vm.method_type] + enc_bytes(vm.key_data@)
}

/// True when the lengths of a method fit their prefixes.
pub open spec fn vm_fits(vm: VerificationMethod) -> bool {
    string_fits(vm.fragment@) && vm.key_data@.len() <= u32::MAX
}

/// The encoding of a service: fragment, type, endpoint.
pub open spec fn enc_service(s: Service) -> Seq<u8> {
    enc_string(s.fragment@) + enc_string(s.service_type@) + enc_string(s.service_endpoint@)
}

/// True when the lengths of a service fit their prefixes.
pub open spec fn service_fits(s: Service) -> bool {
    string_fits(s.fragment@) && string_fits(s.service_type@) && string_fits(s.service_endpoint@)
}

/// The encodings of the elements of `s`, one after the other.
pub open spec fn concat_enc<T>(s: Seq<T>, f: spec_fn(T) -> Seq<u8>) -> Seq<u8>
    decreases s.len(),
{
    if s.len() == 0 {
        Seq::empty()
    } else {
        concat_enc(s.drop_last(), f) + f(s.last())
    }
}

/// The encoding of a list: its count, then each element.
pub open spec fn enc_list<T>(s: Seq<T>, f: spec_fn(T) -> Seq<u8>) -> Seq<u8> {
    enc_u32(s.len()) + concat_enc(s, f)
}

/// The encoding of a method, as a function.
pub open spec fn vm_enc() -> spec_fn(VerificationMethod) -> Seq<u8> {
    |vm: VerificationMethod| enc_vm(vm)
}

/// The encoding of a service, as a function.
pub open spec fn service_enc() -> spec_fn(Service) -> Seq<u8> {
    |s: Service| enc_service(s)
}

/// The encoding of a native key: its raw bytes.
pub open spec fn key_enc() -> spec_fn(Vec<u8>) -> Seq<u8> {
    |k: Vec<u8>| k@
}

/// The encoding of a text, as a function.
pub open spec fn string_enc() -> spec_fn(String) -> Seq<u8> {
    |s: String| enc_string(s@)
}

/// Appends the four little-endian bytes of `n`.
pub fn put_u32(out: &mut Vec<u8>, n: u32)
    ensures
        final(out)@ == old(out)@ + enc_u32(n as nat),
{
    let mut m: u32 = n;
    let mut i: usize = 0;
    let ghost start = out@;
    while i < 4
        invariant
            i <= 4,
            out@ + le_bytes(m as nat, (4 - i) as nat) == start + le_bytes(n as nat, 4),
        decreases 4 - i,
    {
        let ghost before = out@;
        assert(le_bytes(m as nat, (4 - i) as nat) == seq![(m % 256) as u8] + le_bytes((m / 256) as nat, (4 - i - 1) as nat));
        out.push((m % 256) as u8);
        m = m / 256;
        i = i + 1;
        assert(out@ + le_bytes(m as nat, (4 - i) as nat) =~= before + (seq![(out@.last())] + le_bytes(m as nat, (4 - i) as nat)));
    }
    assert(out@ + le_bytes(m as nat, 0) =~= out@);
}

/// Appends the two little-endian bytes of `n`.
pub fn put_u16(out: &mut Vec<u8>, n: u16)
    ensures
        final(out)@ == old(out)@ + le_bytes(n as nat, 2),
{
    let ghost start = out@;
    out.push((n % 256) as u8);
    out.push(((n / 256) % 256) as u8);
    assert(le_bytes(n as nat, 2) == seq![(n % 256) as u8] + le_bytes((n / 256) as nat, 1));
    assert(le_bytes((n / 256) as nat, 1) == seq![((n / 256) % 256) as u8] + le_bytes((n / 256 / 256) as nat, 0));
    assert(out@ =~= start + le_bytes(n as nat, 2));
}

/// Appends the bytes of `b`, with no prefix.
pub fn put_raw(out: &mut Vec<u8>, b: &[u8])
    ensures
        final(out)@ == old(out)@ + b@,
{
    let ghost start = out@;
    let mut i: usize = 0;
    while i < b.len()
        invariant
            i <= b@.len(),
            out@ == start + b@.subrange(0, i as int),
        decreases b@.len() - i,
    {
        out.push(b[i]);
        i = i + 1;
        assert(out@ =~= start + b@.subrange(0, i as int));
    }
    assert(b@.subrange(0, b@.len() as int) =~= b@);
}

/// Appends a byte string: its length, then the bytes.
pub fn put_bytes(out: &mut Vec<u8>, b: &[u8])
    requires
        b@.len() <= u32::MAX,
    ensures
        final(out)@ == old(out)@ + enc_bytes(b@),
{
    put_u32(out, b.len() as u32);
    put_raw(out, b);
    assert(out@ =~= old(out)@ + enc_bytes(b@));
}

/// Appends a text as a byte string.
pub fn put_string(out: &mut Vec<u8>, s: &String)
    requires
        string_fits(s@),
    ensures
        final(out)@ == old(out)@ + enc_string(s@),
{
    put_bytes(out, s.as_str().as_bytes());
}

/// Appends the encoding of a verification method.
pub fn put_vm(out: &mut Vec<u8>, vm: &VerificationMethod)
    requires
        vm_fits(*vm),
    ensures
        final(out)@ == old(out)@ + enc_vm(*vm),
{
    put_string(out, &vm.fragment);
    put_u16(out, vm.flags);
    out.push(vm.method_type);
    put_bytes(out, vm.key_data.as_slice());
    assert(out@ =~= old(out)@ + enc_vm(*vm));
}

/// Appends the encoding of a service.
pub fn put_service(out: &mut Vec<u8>, s: &Service)
    requires
        service_fits(*s),
    ensures
        final(out)@ == old(out)@ + enc_service(*s),
{
    put_string(out, &s.fragment);
    put_string(out, &s.service_type);
    put_string(out, &s.service_endpoint);
    assert(out@ =~= old(out)@ + enc_service(*s));
}

/// The encoding of a verification method.
pub fn encode_verification_method(vm: &VerificationMethod) -> (r: Vec<u8>)
    requires
        vm_fits(*vm),
    ensures
        r@ == enc_vm(*vm),
{
    let mut out: Vec<u8> = Vec::new();
    put_vm(&mut out, vm);
    assert(out@ =~= enc_vm(*vm));
    out
}

/// The encoding of a text.
pub fn encode_string(s: &String) -> (r: Vec<u8>)
    requires
        string_fits(s@),
    ensures
        r@ == enc_string(s@),
{
    let mut out: Vec<u8> = Vec::new();
    put_string(&mut out, s);
    assert(out@ =~= enc_string(s@));
    out
}

/// The message signed to add a service: the service, then one byte for `allow_overwrite`.
pub fn signed_message(service: &Service, allow_overwrite: bool) -> (r: Vec<u8>)
    requires
        service_fits(*service),
    ensures
        r@ == enc_service(*service) + seq![if allow_overwrite { 1u8 } else { 0u8 }],
{
    let mut out: Vec<u8> = Vec::new();
    put_service(&mut out, service);
    out.push(if allow_overwrite { 1u8 } else { 0u8 });
    assert(out@ =~= enc_service(*service) + seq![if allow_overwrite { 1u8 } else { 0u8 }]);
    out
}

/// Appends a list of methods: the count, then each method.
pub fn put_vm_list(out: &mut Vec<u8>, s: &Vec<VerificationMethod>)
    requires
        s@.len() <= u32::MAX,
        forall|i: int| 0 <= i < s@.len() ==> vm_fits(#[trigger] s@[i]),
    ensures
        final(out)@ == old(out)@ + enc_list(s@, vm_enc()),
{
    let ghost start = out@;
    put_u32(out, s.len() as u32);
    let mut i: usize = 0;
    while i < s.len()
        invariant
            i <= s@.len(),
            forall|k: int| 0 <= k < s@.len() ==> vm_fits(#[trigger] s@[k]),
            out@ == start + enc_u32(s@.len()) + concat_enc(s@.subrange(0, i as int), vm_enc()),
        decreases s@.len() - i,
    {
        put_vm(out, &s[i]);
        i = i + 1;
        assert(s@.subrange(0, i as int).drop_last() =~= s@.subrange(0, i - 1));
    }
    assert(s@.subrange(0, s@.len() as int) =~= s@);
}

/// Appends a list of services: the count, then each service.
pub fn put_service_list(out: &mut Vec<u8>, s: &Vec<Service>)
    requires
        s@.len() <= u32::MAX,
        forall|i: int| 0 <= i < s@.len() ==> service_fits(#[trigger] s@[i]),
    ensures
        final(out)@ == old(out)@ + enc_list(s@, service_enc()),
{
    let ghost start = out@;
    put_u32(out, s.len() as u32);
    let mut i: usize = 0;
    while i < s.len()
        invariant
            i <= s@.len(),
            forall|k: int| 0 <= k < s@.len() ==> service_fits(#[trigger] s@[k]),
            out@ == start + enc_u32(s@.len()) + concat_enc(s@.subrange(0, i as int), service_enc()),
        decreases s@.len() - i,
    {
        put_service(out, &s[i]);
        i = i + 1;
        assert(s@.subrange(0, i as int).drop_last() =~= s@.subrange(0, i - 1));
    }
    assert(s@.subrange(0, s@.len() as int) =~= s@);
}

/// Appends a list of native keys: the count, then each key's raw bytes.
pub fn put_key_list(out: &mut Vec<u8>, s: &Vec<Vec<u8>>)
    requires
        s@.len() <= u32::MAX,
    ensures
        final(out)@ == old(out)@ + enc_list(s@, key_enc()),
{
    let ghost start = out@;
    put_u32(out, s.len() as u32);
    let mut i: usize = 0;
    while i < s.len()
        invariant
            i <= s@.len(),
            out@ == start + enc_u32(s@.len()) + concat_enc(s@.subrange(0, i as int), key_enc()),
        decreases s@.len() - i,
    {
        put_raw(out, s[i].as_slice());
        i = i + 1;
        assert(s@.subrange(0, i as int).drop_last() =~= s@.subrange(0, i - 1));
    }
    assert(s@.subrange(0, s@.len() as int) =~= s@);
}

/// Appends a list of texts: the count, then each text.
pub fn put_string_list(out: &mut Vec<u8>, s: &Vec<String>)
    requires
        s@.len() <= u32::MAX,
        forall|i: int| 0 <= i < s@.len() ==> string_fits(#[trigger] s@[i]@),
    ensures
        final(out)@ == old(out)@ + enc_list(s@, string_enc()),
{
    let ghost start = out@;
    put_u32(out, s.len() as u32);
    let mut i: usize = 0;
    while i < s.len()
        invariant
            i <= s@.len(),
            forall|k: int| 0 <= k < s@.len() ==> string_fits(#[trigger] s@[k]@),
            out@ == start + enc_u32(s@.len()) + concat_enc(s@.subrange(0, i as int), string_enc()),
        decreases s@.len() - i,
    {
        put_string(out, &s[i]);
        i = i + 1;
        assert(s@.subrange(0, i as int).drop_last() =~= s@.subrange(0, i - 1));
    }
    assert(s@.subrange(0, s@.len() as int) =~= s@);
}

} // verus!
