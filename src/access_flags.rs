use vstd::prelude::*;

use crate::error::ClassFileError;
use crate::text::{lit, push_str};

verus! {

/// Where an access-flag word stands; each context gives the 16 bits its own meaning.
#[derive(Debug, Clone, Copy, PartialEq, Eq, Structural)]
pub enum FlagContext {
    Class,
    InnerClass,
    Field,
    Method,
    MethodParameter,
    Module,
}

/// One access flag of one context. Flags that share a bit in different contexts
/// (`Super`, `Synchronized`, `Open`) are distinct variants.
#[derive(Debug, Clone, Copy, PartialEq, Eq, Structural)]
pub enum AccessFlag {
    Public,
    Private,
    Protected,
    Static,
    Final,
    Super,
    Synchronized,
    Open,
    Volatile,
    Bridge,
    Transient,
    Varargs,
    Native,
    Interface,
    Abstract,
    Strict,
    Synthetic,
    Annotation,
    Enum,
    Module,
    Mandated,
}

/// The position of the bit that a flag occupies.
pub open spec fn flag_bit(f: AccessFlag) -> u32 {
    match f {
        AccessFlag::Public => 0,
        AccessFlag::Private => 1,
        AccessFlag::Protected => 2,
        AccessFlag::Static => 3,
        AccessFlag::Final => 4,
        AccessFlag::Super => 5,
        AccessFlag::Synchronized => 5,
        AccessFlag::Open => 5,
        AccessFlag::Volatile => 6,
        AccessFlag::Bridge => 6,
        AccessFlag::Transient => 7,
        AccessFlag::Varargs => 7,
        AccessFlag::Native => 8,
        AccessFlag::Interface => 9,
        AccessFlag::Abstract => 10,
        AccessFlag::Strict => 11,
        AccessFlag::Synthetic => 12,
        AccessFlag::Annotation => 13,
        AccessFlag::Enum => 14,
        AccessFlag::Module => 15,
        AccessFlag::Mandated => 15,
    }
}

/// The bit that a flag occupies.
pub open spec fn flag_value(f: AccessFlag) -> u16 {
    1u16 << flag_bit(f)
}

/// The bits that a context defines; any other bit is malformation.
pub open spec fn context_mask(c: FlagContext) -> u16 {
    match c {
        FlagContext::Class => 0xf631,
        FlagContext::InnerClass => 0x761f,
        FlagContext::Field => 0x50df,
        FlagContext::Method => 0x1dff,
        FlagContext::MethodParameter => 0x9010,
        FlagContext::Module => 0x9020,
    }
}

/// The flag of context `c` whose bit is `i`, for a bit that the context defines.
pub open spec fn named_flag(c: FlagContext, i: u32) -> AccessFlag {
    match c {
        FlagContext::Class => match i {
                0 => AccessFlag::Public,
                1 => AccessFlag::Private,
                2 => AccessFlag::Protected,
                3 => AccessFlag::Static,
                4 => AccessFlag::Final,
                5 => AccessFlag::Super,
                6 => AccessFlag::Volatile,
                7 => AccessFlag::Transient,
                8 => AccessFlag::Native,
                9 => AccessFlag::Interface,
                10 => AccessFlag::Abstract,
                11 => AccessFlag::Strict,
                12 => AccessFlag::Synthetic,
                13 => AccessFlag::Annotation,
                14 => AccessFlag::Enum,
                15 => AccessFlag::Module,
                _ => AccessFlag::Module,
            },
        FlagContext::InnerClass => match i {
                0 => AccessFlag::Public,
                1 => AccessFlag::Private,
                2 => AccessFlag::Protected,
                3 => AccessFlag::Static,
                4 => AccessFlag::Final,
                5 => AccessFlag::Super,
                6 => AccessFlag::Volatile,
                7 => AccessFlag::Transient,
                8 => AccessFlag::Native,
                9 => AccessFlag::Interface,
                10 => AccessFlag::Abstract,
                11 => AccessFlag::Strict,
                12 => AccessFlag::Synthetic,
                13 => AccessFlag::Annotation,
                14 => AccessFlag::Enum,
                15 => AccessFlag::Module,
                _ => AccessFlag::Module,
            },
        FlagContext::Field => match i {
                0 => AccessFlag::Public,
                1 => AccessFlag::Private,
                2 => AccessFlag::Protected,
                3 => AccessFlag::Static,
                4 => AccessFlag::Final,
                5 => AccessFlag::Super,
                6 => AccessFlag::Volatile,
                7 => AccessFlag::Transient,
                8 => AccessFlag::Native,
                9 => AccessFlag::Interface,
                10 => AccessFlag::Abstract,
                11 => AccessFlag::Strict,
                12 => AccessFlag::Synthetic,
                13 => AccessFlag::Annotation,
                14 => AccessFlag::Enum,
                15 => AccessFlag::Module,
                _ => AccessFlag::Module,
            },
        FlagContext::Method => match i {
                0 => AccessFlag::Public,
                1 => AccessFlag::Private,
                2 => AccessFlag::Protected,
                3 => AccessFlag::Static,
                4 => AccessFlag::Final,
                5 => AccessFlag::Synchronized,
                6 => AccessFlag::Bridge,
                7 => AccessFlag::Varargs,
                8 => AccessFlag::Native,
                9 => AccessFlag::Interface,
                10 => AccessFlag::Abstract,
                11 => AccessFlag::Strict,
                12 => AccessFlag::Synthetic,
                13 => AccessFlag::Annotation,
                14 => AccessFlag::Enum,
                15 => AccessFlag::Module,
                _ => AccessFlag::Module,
            },
        FlagContext::MethodParameter => match i {
                0 => AccessFlag::Public,
                1 => AccessFlag::Private,
                2 => AccessFlag::Protected,
                3 => AccessFlag::Static,
                4 => AccessFlag::Final,
                5 => AccessFlag::Super,
                6 => AccessFlag::Volatile,
                7 => AccessFlag::Transient,
                8 => AccessFlag::Native,
                9 => AccessFlag::Interface,
                10 => AccessFlag::Abstract,
                11 => AccessFlag::Strict,
                12 => AccessFlag::Synthetic,
                13 => AccessFlag::Annotation,
                14 => AccessFlag::Enum,
                15 => AccessFlag::Mandated,
                _ => AccessFlag::Module,
            },
        FlagContext::Module => match i {
                0 => AccessFlag::Public,
                1 => AccessFlag::Private,
                2 => AccessFlag::Protected,
                3 => AccessFlag::Static,
                4 => AccessFlag::Final,
                5 => AccessFlag::Open,
                6 => AccessFlag::Volatile,
                7 => AccessFlag::Transient,
                8 => AccessFlag::Native,
                9 => AccessFlag::Interface,
                10 => AccessFlag::Abstract,
                11 => AccessFlag::Strict,
                12 => AccessFlag::Synthetic,
                13 => AccessFlag::Annotation,
                14 => AccessFlag::Enum,
                15 => AccessFlag::Mandated,
                _ => AccessFlag::Module,
            },
    }
}

/// The flag that bit `i` stands for in context `c`, if any.
pub open spec fn flag_at(c: FlagContext, i: u32) -> Option<AccessFlag> {
    if i < 16 && context_mask(c) & (1u16 << i) != 0 {
        Some(named_flag(c, i))
    } else {
        None
    }
}

/// The flags of context `c` set among the low `n` bits of `v`, lowest bit first.
pub open spec fn flags_below(v: u16, c: FlagContext, n: nat) -> Seq<AccessFlag>
    decreases n,
{
    if n == 0 {
        Seq::empty()
    } else {
        let prev = flags_below(v, c, (n - 1) as nat);
        match flag_at(c, (n - 1) as u32) {
            Some(f) => if v & (1u16 << ((n - 1) as u32)) != 0 {
                prev.push(f)
            } else {
                prev
            },
            None => prev,
        }
    }
}

/// The flags that an access-flag word holds in context `c`, lowest bit first.
pub open spec fn decoded_flags(v: u16, c: FlagContext) -> Seq<AccessFlag> {
    flags_below(v, c, 16)
}

/// The bits of a sequence of flags, or-ed together.
pub open spec fn flags_word(s: Seq<AccessFlag>) -> u16
    decreases s.len(),
{
    if s.len() == 0 {
        0
    } else {
        flags_word(s.drop_last()) | flag_value(s.last())
    }
}

/// The `ACC_` token of a flag.
pub open spec fn spec_java_repr(f: AccessFlag) -> Seq<char> {
    match f {
        AccessFlag::Public => "ACC_PUBLIC"@,
        AccessFlag::Private => "ACC_PRIVATE"@,
        AccessFlag::Protected => "ACC_PROTECTED"@,
        AccessFlag::Static => "ACC_STATIC"@,
        AccessFlag::Final => "ACC_FINAL"@,
        AccessFlag::Super => "ACC_SUPER"@,
        AccessFlag::Synchronized => "ACC_SYNCHRONIZED"@,
        AccessFlag::Open => "ACC_OPEN"@,
        AccessFlag::Volatile => "ACC_VOLATILE"@,
        AccessFlag::Bridge => "ACC_BRIDGE"@,
        AccessFlag::Transient => "ACC_TRANSIENT"@,
        AccessFlag::Varargs => "ACC_VARARGS"@,
        AccessFlag::Native => "ACC_NATIVE"@,
        AccessFlag::Interface => "ACC_INTERFACE"@,
        AccessFlag::Abstract => "ACC_ABSTRACT"@,
        AccessFlag::Strict => "ACC_STRICT"@,
        AccessFlag::Synthetic => "ACC_SYNTHETIC"@,
        AccessFlag::Annotation => "ACC_ANNOTATION"@,
        AccessFlag::Enum => "ACC_ENUM"@,
        AccessFlag::Module => "ACC_MODULE"@,
        AccessFlag::Mandated => "ACC_MANDATED"@,
    }
}

/// The Java keyword of a flag; empty for flags that source code does not spell.
pub open spec fn spec_modifier_repr(f: AccessFlag) -> Seq<char> {
    match f {
        AccessFlag::Public => "public"@,
        AccessFlag::Private => "private"@,
        AccessFlag::Protected => "protected"@,
        AccessFlag::Static => "static"@,
        AccessFlag::Final => "final"@,
        AccessFlag::Super => "class"@,
        AccessFlag::Synchronized => "synchronized"@,
        AccessFlag::Open => "open"@,
        AccessFlag::Volatile => "volatile"@,
        AccessFlag::Bridge => ""@,
        AccessFlag::Transient => "transient"@,
        AccessFlag::Varargs => ""@,
        AccessFlag::Native => "native"@,
        AccessFlag::Interface => "interface"@,
        AccessFlag::Abstract => "abstract"@,
        AccessFlag::Strict => "strictfp"@,
        AccessFlag::Synthetic => ""@,
        AccessFlag::Annotation => ""@,
        AccessFlag::Enum => ""@,
        AccessFlag::Module => ""@,
        AccessFlag::Mandated => ""@,
    }
}

/// The `ACC_` tokens of the flags, separated by `", "`.
pub open spec fn joined_java_repr(s: Seq<AccessFlag>) -> Seq<char>
    decreases s.len(),
{
    if s.len() == 0 {
        Seq::empty()
    } else if s.len() == 1 {
        spec_java_repr(s[0])
    } else {
        joined_java_repr(s.drop_last()) + ", "@ + spec_java_repr(s.last())
    }
}

/// Each non-empty keyword of the flags, preceded by one space.
pub open spec fn joined_modifier_repr(s: Seq<AccessFlag>) -> Seq<char>
    decreases s.len(),
{
    if s.len() == 0 {
        Seq::empty()
    } else if spec_modifier_repr(s.last()).len() == 0 {
        joined_modifier_repr(s.drop_last())
    } else {
        joined_modifier_repr(s.drop_last()) + " "@ + spec_modifier_repr(s.last())
    }
}

fn flag_bit_exec(f: AccessFlag) -> (r: u32)
    ensures
        r == flag_bit(f),
{
    match f {
        AccessFlag::Public => 0,
        AccessFlag::Private => 1,
        AccessFlag::Protected => 2,
        AccessFlag::Static => 3,
        AccessFlag::Final => 4,
        AccessFlag::Super => 5,
        AccessFlag::Synchronized => 5,
        AccessFlag::Open => 5,
        AccessFlag::Volatile => 6,
        AccessFlag::Bridge => 6,
        AccessFlag::Transient => 7,
        AccessFlag::Varargs => 7,
        AccessFlag::Native => 8,
        AccessFlag::Interface => 9,
        AccessFlag::Abstract => 10,
        AccessFlag::Strict => 11,
        AccessFlag::Synthetic => 12,
        AccessFlag::Annotation => 13,
        AccessFlag::Enum => 14,
        AccessFlag::Module => 15,
        AccessFlag::Mandated => 15,
    }
}

pub fn flag_bits(f: AccessFlag) -> (r: u16)
    ensures
        r == flag_value(f),
{
    let b = flag_bit_exec(f);
    1u16 << b
}

pub fn mask_of(c: FlagContext) -> (r: u16)
    ensures
        r == context_mask(c),
{
    match c {
        FlagContext::Class => 0xf631,
        FlagContext::InnerClass => 0x761f,
        FlagContext::Field => 0x50df,
        FlagContext::Method => 0x1dff,
        FlagContext::MethodParameter => 0x9010,
        FlagContext::Module => 0x9020,
    }
}

fn named_flag_exec(c: FlagContext, i: u32) -> (r: AccessFlag)
    ensures
        r == named_flag(c, i),
{
    match c {
        FlagContext::Class => match i {
                0 => AccessFlag::Public,
                1 => AccessFlag::Private,
                2 => AccessFlag::Protected,
                3 => AccessFlag::Static,
                4 => AccessFlag::Final,
                5 => AccessFlag::Super,
                6 => AccessFlag::Volatile,
                7 => AccessFlag::Transient,
                8 => AccessFlag::Native,
                9 => AccessFlag::Interface,
                10 => AccessFlag::Abstract,
                11 => AccessFlag::Strict,
                12 => AccessFlag::Synthetic,
                13 => AccessFlag::Annotation,
                14 => AccessFlag::Enum,
                15 => AccessFlag::Module,
                _ => AccessFlag::Module,
            },
        FlagContext::InnerClass => match i {
                0 => AccessFlag::Public,
                1 => AccessFlag::Private,
                2 => AccessFlag::Protected,
                3 => AccessFlag::Static,
                4 => AccessFlag::Final,
                5 => AccessFlag::Super,
                6 => AccessFlag::Volatile,
                7 => AccessFlag::Transient,
                8 => AccessFlag::Native,
                9 => AccessFlag::Interface,
                10 => AccessFlag::Abstract,
                11 => AccessFlag::Strict,
                12 => AccessFlag::Synthetic,
                13 => AccessFlag::Annotation,
                14 => AccessFlag::Enum,
                15 => AccessFlag::Module,
                _ => AccessFlag::Module,
            },
        FlagContext::Field => match i {
                0 => AccessFlag::Public,
                1 => AccessFlag::Private,
                2 => AccessFlag::Protected,
                3 => AccessFlag::Static,
                4 => AccessFlag::Final,
                5 => AccessFlag::Super,
                6 => AccessFlag::Volatile,
                7 => AccessFlag::Transient,
                8 => AccessFlag::Native,
                9 => AccessFlag::Interface,
                10 => AccessFlag::Abstract,
                11 => AccessFlag::Strict,
                12 => AccessFlag::Synthetic,
                13 => AccessFlag::Annotation,
                14 => AccessFlag::Enum,
                15 => AccessFlag::Module,
                _ => AccessFlag::Module,
            },
        FlagContext::Method => match i {
                0 => AccessFlag::Public,
                1 => AccessFlag::Private,
                2 => AccessFlag::Protected,
                3 => AccessFlag::Static,
                4 => AccessFlag::Final,
                5 => AccessFlag::Synchronized,
                6 => AccessFlag::Bridge,
                7 => AccessFlag::Varargs,
                8 => AccessFlag::Native,
                9 => AccessFlag::Interface,
                10 => AccessFlag::Abstract,
                11 => AccessFlag::Strict,
                12 => AccessFlag::Synthetic,
                13 => AccessFlag::Annotation,
                14 => AccessFlag::Enum,
                15 => AccessFlag::Module,
                _ => AccessFlag::Module,
            },
        FlagContext::MethodParameter => match i {
                0 => AccessFlag::Public,
                1 => AccessFlag::Private,
                2 => AccessFlag::Protected,
                3 => AccessFlag::Static,
                4 => AccessFlag::Final,
                5 => AccessFlag::Super,
                6 => AccessFlag::Volatile,
                7 => AccessFlag::Transient,
                8 => AccessFlag::Native,
                9 => AccessFlag::Interface,
                10 => AccessFlag::Abstract,
                11 => AccessFlag::Strict,
                12 => AccessFlag::Synthetic,
                13 => AccessFlag::Annotation,
                14 => AccessFlag::Enum,
                15 => AccessFlag::Mandated,
                _ => AccessFlag::Module,
            },
        FlagContext::Module => match i {
                0 => AccessFlag::Public,
                1 => AccessFlag::Private,
                2 => AccessFlag::Protected,
                3 => AccessFlag::Static,
                4 => AccessFlag::Final,
                5 => AccessFlag::Open,
                6 => AccessFlag::Volatile,
                7 => AccessFlag::Transient,
                8 => AccessFlag::Native,
                9 => AccessFlag::Interface,
                10 => AccessFlag::Abstract,
                11 => AccessFlag::Strict,
                12 => AccessFlag::Synthetic,
                13 => AccessFlag::Annotation,
                14 => AccessFlag::Enum,
                15 => AccessFlag::Mandated,
                _ => AccessFlag::Module,
            },
    }
}

fn flag_for_bit(c: FlagContext, i: u32) -> (r: Option<AccessFlag>)
    requires
        i < 16,
    ensures
        r == flag_at(c, i),
{
    if mask_of(c) & (1u16 << i) != 0 {
        Some(named_flag_exec(c, i))
    } else {
        None
    }
}

pub fn java_repr(flag: AccessFlag) -> (r: String)
    ensures
        r@ == spec_java_repr(flag),
{
    match flag {
        AccessFlag::Public => lit("ACC_PUBLIC"),
        AccessFlag::Private => lit("ACC_PRIVATE"),
        AccessFlag::Protected => lit("ACC_PROTECTED"),
        AccessFlag::Static => lit("ACC_STATIC"),
        AccessFlag::Final => lit("ACC_FINAL"),
        AccessFlag::Super => lit("ACC_SUPER"),
        AccessFlag::Synchronized => lit("ACC_SYNCHRONIZED"),
        AccessFlag::Open => lit("ACC_OPEN"),
        AccessFlag::Volatile => lit("ACC_VOLATILE"),
        AccessFlag::Bridge => lit("ACC_BRIDGE"),
        AccessFlag::Transient => lit("ACC_TRANSIENT"),
        AccessFlag::Varargs => lit("ACC_VARARGS"),
        AccessFlag::Native => lit("ACC_NATIVE"),
        AccessFlag::Interface => lit("ACC_INTERFACE"),
        AccessFlag::Abstract => lit("ACC_ABSTRACT"),
        AccessFlag::Strict => lit("ACC_STRICT"),
        AccessFlag::Synthetic => lit("ACC_SYNTHETIC"),
        AccessFlag::Annotation => lit("ACC_ANNOTATION"),
        AccessFlag::Enum => lit("ACC_ENUM"),
        AccessFlag::Module => lit("ACC_MODULE"),
        AccessFlag::Mandated => lit("ACC_MANDATED"),
    }
}

pub fn modifier_repr(flag: AccessFlag) -> (r: String)
    ensures
        r@ == spec_modifier_repr(flag),
{
    match flag {
        AccessFlag::Public => lit("public"),
        AccessFlag::Private => lit("private"),
        AccessFlag::Protected => lit("protected"),
        AccessFlag::Static => lit("static"),
        AccessFlag::Final => lit("final"),
        AccessFlag::Super => lit("class"),
        AccessFlag::Synchronized => lit("synchronized"),
        AccessFlag::Open => lit("open"),
        AccessFlag::Volatile => lit("volatile"),
        AccessFlag::Bridge => lit(""),
        AccessFlag::Transient => lit("transient"),
        AccessFlag::Varargs => lit(""),
        AccessFlag::Native => lit("native"),
        AccessFlag::Interface => lit("interface"),
        AccessFlag::Abstract => lit("abstract"),
        AccessFlag::Strict => lit("strictfp"),
        AccessFlag::Synthetic => lit(""),
        AccessFlag::Annotation => lit(""),
        AccessFlag::Enum => lit(""),
        AccessFlag::Module => lit(""),
        AccessFlag::Mandated => lit(""),
    }
}

/// The `ACC_` tokens of `flags`, separated by `", "`.
pub fn java_repr_vec(flags: &[AccessFlag]) -> (r: String)
    ensures
        r@ == joined_java_repr(flags@),
{
    let mut s = String::new();
    let mut i: usize = 0;
    while i < flags.len()
        invariant
            0 <= i <= flags@.len(),
            s@ == joined_java_repr(flags@.subrange(0, i as int)),
        decreases flags@.len() - i,
    {
        if i > 0 {
            push_str(&mut s, ", ");
        }
        let t = java_repr(flags[i]);
        push_str(&mut s, t.as_str());
        proof {
            let p = flags@.subrange(0, i + 1);
            assert(p.drop_last() =~= flags@.subrange(0, i as int));
            if i == 0 {
                assert(s@ =~= joined_java_repr(p));
            }
        }
        i = i + 1;
    }
    assert(flags@.subrange(0, flags@.len() as int) =~= flags@);
    s
}

/// The Java keywords of `flags`, each preceded by a space; flags without a keyword are left out.
pub fn modifier_repr_vec(flags: &[AccessFlag]) -> (r: String)
    ensures
        r@ == joined_modifier_repr(flags@),
{
    let mut s = String::new();
    let mut i: usize = 0;
    while i < flags.len()
        invariant
            0 <= i <= flags@.len(),
            s@ == joined_modifier_repr(flags@.subrange(0, i as int)),
        decreases flags@.len() - i,
    {
        let t = modifier_repr(flags[i]);
        if t.as_str().unicode_len() > 0 {
            push_str(&mut s, " ");
            push_str(&mut s, t.as_str());
        }
        proof {
            let p = flags@.subrange(0, i + 1);
            assert(p.drop_last() =~= flags@.subrange(0, i as int));
        }
        i = i + 1;
    }
    assert(flags@.subrange(0, flags@.len() as int) =~= flags@);
    s
}

/// The access-flag word that `flags` stand for.
pub fn to_u16(flags: &[AccessFlag]) -> (r: u16)
    ensures
        r == flags_word(flags@),
{
    let mut acc: u16 = 0;
    let mut i: usize = 0;
    while i < flags.len()
        invariant
            0 <= i <= flags@.len(),
            acc == flags_word(flags@.subrange(0, i as int)),
        decreases flags@.len() - i,
    {
        acc = acc | flag_bits(flags[i]);
        proof {
            let p = flags@.subrange(0, i + 1);
            assert(p.drop_last() =~= flags@.subrange(0, i as int));
        }
        i = i + 1;
    }
    assert(flags@.subrange(0, flags@.len() as int) =~= flags@);
    acc
}

/// Decodes an access-flag word of context `c`. Bits outside the context's mask are
/// malformation; otherwise the flags come lowest bit first.
pub fn parse_access_flags(flags: u16, c: FlagContext) -> (r: Result<Vec<AccessFlag>, ClassFileError>)
    ensures
        r is Ok <==> flags & !context_mask(c) == 0,
        r matches Ok(v) ==> v@ == decoded_flags(flags, c) && flags_word(v@) == flags,
        r is Err ==> r == Err::<Vec<AccessFlag>, ClassFileError>(
            ClassFileError::InvalidAccessFlags { flags, mask: context_mask(c) },
        ),
{
    let mask = mask_of(c);
    if flags & !mask != 0 {
        return Err(ClassFileError::InvalidAccessFlags { flags, mask });
    }
    let mut result: Vec<AccessFlag> = Vec::new();
    let mut i: u32 = 0;
    while i < 16
        invariant
            0 <= i <= 16,
            result@ == flags_below(flags, c, i as nat),
        decreases 16 - i,
    {
        if flags & (1u16 << i) != 0 {
            match flag_for_bit(c, i) {
                Some(f) => result.push(f),
                None => {},
            }
        }
        i = i + 1;
    }
    proof {
        flags_round_trip(flags, c);
    }
    Ok(result)
}

/// The low `n` bits of a flag word.
pub open spec fn low_bits(n: u32) -> u16 {
    if n >= 16 { 0xffff } else { !(0xffffu16 << n) }
}

proof fn lemma_bit_step(v: u16, m: u16, k: u32)
    requires
        k < 16,
    ensures
        (v & (1u16 << k) != 0 && m & (1u16 << k) != 0) ==> ((v & m & low_bits(k)) | (1u16 << k))
            == v & m & low_bits((k + 1) as u32),
        !(v & (1u16 << k) != 0 && m & (1u16 << k) != 0) ==> v & m & low_bits(k) == v & m
            & low_bits((k + 1) as u32),
{
    if k < 15 {
        assert((v & (1u16 << k) != 0 && m & (1u16 << k) != 0) ==> ((v & m & !(0xffffu16 << k)) | (1u16 << k))
            == v & m & !(0xffffu16 << (k + 1))) by (bit_vector)
            requires
                k < 15,
        ;
        assert(!(v & (1u16 << k) != 0 && m & (1u16 << k) != 0) ==> v & m & !(0xffffu16 << k)
            == v & m & !(0xffffu16 << (k + 1))) by (bit_vector)
            requires
                k < 15,
        ;
    } else {
        assert((v & (1u16 << 15u32) != 0 && m & (1u16 << 15u32) != 0) ==> ((v & m & !(0xffffu16 << 15u32)) | (1u16 << 15u32))
            == v & m & 0xffffu16) by (bit_vector);
        assert(!(v & (1u16 << 15u32) != 0 && m & (1u16 << 15u32) != 0) ==> v & m & !(0xffffu16 << 15u32)
            == v & m & 0xffffu16) by (bit_vector);
    }
}

proof fn lemma_word_below(v: u16, c: FlagContext, n: nat)
    requires
        n <= 16,
    ensures
        flags_word(flags_below(v, c, n)) == v & context_mask(c) & low_bits(n as u32),
    decreases n,
{
    let m = context_mask(c);
    if n == 0 {
        assert(v & m & !(0xffffu16 << 0u32) == 0u16) by (bit_vector);
    } else {
        lemma_word_below(v, c, (n - 1) as nat);
        let k = (n - 1) as u32;
        let prev = flags_below(v, c, (n - 1) as nat);
        lemma_bit_step(v, m, k);
        if v & (1u16 << k) != 0 && m & (1u16 << k) != 0 {
            let f = named_flag(c, k);
            assert(flag_at(c, k) == Some(f));
            assert(flag_bit(f) == k);
            assert(flags_below(v, c, n) == prev.push(f));
            assert(prev.push(f).drop_last() =~= prev);
        }
    }
}

/// Decoding a flag word that keeps to its context's mask loses nothing: the flags it
/// yields, or-ed together, give the word back.
pub proof fn flags_round_trip(v: u16, c: FlagContext)
    requires
        v & !context_mask(c) == 0,
    ensures
        flags_word(decoded_flags(v, c)) == v,
{
    let m = context_mask(c);
    lemma_word_below(v, c, 16);
    assert(v & !m == 0 ==> v & m & 0xffffu16 == v) by (bit_vector);
}

} // verus!
