//! Decoding a raw file-mode integer into the ten-character
//! type-and-permission string of a long-format directory listing.

use vstd::prelude::*;

verus! {

use vstd::string::StringExecFns;

// File type mask values
pub const S_IFMT: u32 = 0o0170000;

pub const S_IFREG: u32 = 0o0100000;

pub const S_IFDIR: u32 = 0o0040000;

// File permission mask values
pub const S_IRWXU: u32 = 0o00700;

pub const S_IRUSR: u32 = 0o00400;

pub const S_IWUSR: u32 = 0o00200;

pub const S_IXUSR: u32 = 0o00100;

pub const S_IRWXG: u32 = 0o00070;

pub const S_IRGRP: u32 = 0o00040;

pub const S_IWGRP: u32 = 0o00020;

pub const S_IXGRP: u32 = 0o00010;

pub const S_IRWXO: u32 = 0o00007;

pub const S_IROTH: u32 = 0o00004;

pub const S_IWOTH: u32 = 0o00002;

pub const S_IXOTH: u32 = 0o00001;

/// The leading type character: `-` for a regular file, `d` for a
/// directory, and `?` for every other (or malformed) type pattern.
pub open spec fn type_char(mode: u32) -> char {
    if mode & S_IFMT == S_IFREG {
        '-'
    } else if mode & S_IFMT == S_IFDIR {
        'd'
    } else {
        '?'
    }
}

/// One permission character: the capability letter when the bit under
/// `mask` is set, `-` otherwise.
pub open spec fn perm_char(mode: u32, mask: u32, letter: char) -> char {
    if mode & mask == mask {
        letter
    } else {
        '-'
    }
}

/// The full ten-character string: type, then the owner, group and
/// other triads, each in read/write/execute order.
pub open spec fn spec_mode_string(mode: u32) -> Seq<char> {
    seq![
        type_char(mode),
        perm_char(mode, S_IRUSR, 'r'),
        perm_char(mode, S_IWUSR, 'w'),
        perm_char(mode, S_IXUSR, 'x'),
        perm_char(mode, S_IRGRP, 'r'),
        perm_char(mode, S_IWGRP, 'w'),
        perm_char(mode, S_IXGRP, 'x'),
        perm_char(mode, S_IROTH, 'r'),
        perm_char(mode, S_IWOTH, 'w'),
        perm_char(mode, S_IXOTH, 'x'),
    ]
}

/// Masking the permission field first changes no individual bit test.
proof fn lemma_perm_field(mode: u32)
    by (bit_vector)
    ensures
        ((mode & 0o7777) & S_IRWXU == S_IRWXU) == (mode & S_IRWXU == S_IRWXU),
        ((mode & 0o7777) & S_IRUSR == S_IRUSR) == (mode & S_IRUSR == S_IRUSR),
        ((mode & 0o7777) & S_IWUSR == S_IWUSR) == (mode & S_IWUSR == S_IWUSR),
        ((mode & 0o7777) & S_IXUSR == S_IXUSR) == (mode & S_IXUSR == S_IXUSR),
        ((mode & 0o7777) & S_IRWXG == S_IRWXG) == (mode & S_IRWXG == S_IRWXG),
        ((mode & 0o7777) & S_IRGRP == S_IRGRP) == (mode & S_IRGRP == S_IRGRP),
        ((mode & 0o7777) & S_IWGRP == S_IWGRP) == (mode & S_IWGRP == S_IWGRP),
        ((mode & 0o7777) & S_IXGRP == S_IXGRP) == (mode & S_IXGRP == S_IXGRP),
        ((mode & 0o7777) & S_IRWXO == S_IRWXO) == (mode & S_IRWXO == S_IRWXO),
        ((mode & 0o7777) & S_IROTH == S_IROTH) == (mode & S_IROTH == S_IROTH),
        ((mode & 0o7777) & S_IWOTH == S_IWOTH) == (mode & S_IWOTH == S_IWOTH),
        ((mode & 0o7777) & S_IXOTH == S_IXOTH) == (mode & S_IXOTH == S_IXOTH),
{
}

/// Each triad's full mask is the union of its three bit masks.
proof fn lemma_triad_masks()
    by (bit_vector)
    ensures
        (S_IRUSR | S_IWUSR | S_IXUSR) == S_IRWXU,
        (S_IRGRP | S_IWGRP | S_IXGRP) == S_IRWXG,
        (S_IROTH | S_IWOTH | S_IXOTH) == S_IRWXO,
{
}

/// A triad whose full mask is set has each of its three bits set.
proof fn lemma_full_triad_bits(p: u32, full: u32, r: u32, w: u32, x: u32)
    by (bit_vector)
    requires
        (r | w | x) == full,
        p & full == full,
    ensures
        p & r == r,
        p & w == w,
        p & x == x,
{
}

#[verifier::rlimit(60)]
pub fn mode_to_string(mode_bits: u32) -> (r: String)
    ensures
        r@ == spec_mode_string(mode_bits),
{
    proof {
        reveal_strlit("-");
        reveal_strlit("d");
        reveal_strlit("?");
        reveal_strlit("r");
        reveal_strlit("w");
        reveal_strlit("x");
        reveal_strlit("rwx");
    }
    let mut output = String::new();

    // Calculate file type
    let type_bits: u32 = mode_bits & S_IFMT;
    if type_bits == S_IFREG {
        output.append("-");
    } else if type_bits == S_IFDIR {
        output.append("d");
    } else {
        output.append("?");
    }
    assert(output@ =~= seq![type_char(mode_bits)]);

    // Calculate permissions
    let permission_bits: u32 = mode_bits & 0o7777;
    proof {
        lemma_triad_masks();
        lemma_perm_field(mode_bits);
    }

    if permission_bits & S_IRWXU == S_IRWXU {
        proof {
            lemma_full_triad_bits(mode_bits, S_IRWXU, S_IRUSR, S_IWUSR, S_IXUSR);
        }
        output.append("rwx");
    } else {
        if permission_bits & S_IRUSR == S_IRUSR {
            output.append("r");
        } else {
            output.append("-");
        }
        if permission_bits & S_IWUSR == S_IWUSR {
            output.append("w");
        } else {
            output.append("-");
        }
        if permission_bits & S_IXUSR == S_IXUSR {
            output.append("x");
        } else {
            output.append("-");
        }
    }
    assert(output@ =~= spec_mode_string(mode_bits).subrange(0, 4));

    if permission_bits & S_IRWXG == S_IRWXG {
        proof {
            lemma_full_triad_bits(mode_bits, S_IRWXG, S_IRGRP, S_IWGRP, S_IXGRP);
        }
        output.append("rwx");
    } else {
        if permission_bits & S_IRGRP == S_IRGRP {
            output.append("r");
        } else {
            output.append("-");
        }
        if permission_bits & S_IWGRP == S_IWGRP {
            output.append("w");
        } else {
            output.append("-");
        }
        if permission_bits & S_IXGRP == S_IXGRP {
            output.append("x");
        } else {
            output.append("-");
        }
    }
    assert(output@ =~= spec_mode_string(mode_bits).subrange(0, 7));

    if permission_bits & S_IRWXO != S_IRWXO {
        if permission_bits & S_IROTH == S_IROTH {
            output.append("r");
        } else {
            output.append("-");
        }
        if permission_bits & S_IWOTH == S_IWOTH {
            output.append("w");
        } else {
            output.append("-");
        }
        if permission_bits & S_IXOTH == S_IXOTH {
            output.append("x");
        } else {
            output.append("-");
        }
    } else {
        proof {
            lemma_full_triad_bits(mode_bits, S_IRWXO, S_IROTH, S_IWOTH, S_IXOTH);
        }
        output.append("rwx");
    }
    assert(output@ =~= spec_mode_string(mode_bits));

    output
}

/// The decoded string is always exactly ten characters: a type
/// character drawn from `-`, `d`, `?`, then nine permission characters
/// each drawn from `r`, `w`, `x`, `-`, in owner/group/other order.
pub proof fn lemma_mode_string_shape(mode: u32)
    ensures
        spec_mode_string(mode).len() == 10,
        spec_mode_string(mode)[0] == '-' || spec_mode_string(mode)[0] == 'd'
            || spec_mode_string(mode)[0] == '?',
        forall|i: int|
            1 <= i < 10 ==> (spec_mode_string(mode)[i] == 'r' || spec_mode_string(mode)[i] == 'w'
                || spec_mode_string(mode)[i] == 'x' || spec_mode_string(mode)[i] == '-'),
{
    assert forall|i: int| 1 <= i < 10 implies (spec_mode_string(mode)[i] == 'r'
        || spec_mode_string(mode)[i] == 'w' || spec_mode_string(mode)[i] == 'x'
        || spec_mode_string(mode)[i] == '-') by {
        assert(spec_mode_string(mode)[1] == perm_char(mode, S_IRUSR, 'r'));
        assert(spec_mode_string(mode)[2] == perm_char(mode, S_IWUSR, 'w'));
        assert(spec_mode_string(mode)[3] == perm_char(mode, S_IXUSR, 'x'));
        assert(spec_mode_string(mode)[4] == perm_char(mode, S_IRGRP, 'r'));
        assert(spec_mode_string(mode)[5] == perm_char(mode, S_IWGRP, 'w'));
        assert(spec_mode_string(mode)[6] == perm_char(mode, S_IXGRP, 'x'));
        assert(spec_mode_string(mode)[7] == perm_char(mode, S_IROTH, 'r'));
        assert(spec_mode_string(mode)[8] == perm_char(mode, S_IWOTH, 'w'));
        assert(spec_mode_string(mode)[9] == perm_char(mode, S_IXOTH, 'x'));
    }
}

/// Two decoded strings for the same mode are the same string: the
/// decoder is a pure function of its input.
pub proof fn lemma_mode_string_deterministic(mode: u32, r1: Seq<char>, r2: Seq<char>)
    requires
        r1 == spec_mode_string(mode),
        r2 == spec_mode_string(mode),
    ensures
        r1 == r2,
{
}

/// A triad with all three permission bits set renders as `rwx`;
/// a triad with none of them set renders as `---`.
pub proof fn lemma_triad_rendering(mode: u32)
    ensures
        mode & S_IRWXU == S_IRWXU ==> spec_mode_string(mode).subrange(1, 4) == seq!['r', 'w', 'x'],
        mode & S_IRWXU == 0 ==> spec_mode_string(mode).subrange(1, 4) == seq!['-', '-', '-'],
        mode & S_IRWXG == S_IRWXG ==> spec_mode_string(mode).subrange(4, 7) == seq!['r', 'w', 'x'],
        mode & S_IRWXG == 0 ==> spec_mode_string(mode).subrange(4, 7) == seq!['-', '-', '-'],
        mode & S_IRWXO == S_IRWXO ==> spec_mode_string(mode).subrange(7, 10) == seq!['r', 'w', 'x'],
        mode & S_IRWXO == 0 ==> spec_mode_string(mode).subrange(7, 10) == seq!['-', '-', '-'],
{
    lemma_triad_masks();
    if mode & S_IRWXU == S_IRWXU {
        lemma_full_triad_bits(mode, S_IRWXU, S_IRUSR, S_IWUSR, S_IXUSR);
        assert(spec_mode_string(mode).subrange(1, 4) =~= seq!['r', 'w', 'x']);
    }
    if mode & S_IRWXU == 0 {
        lemma_empty_triad_bits(mode, S_IRWXU, S_IRUSR, S_IWUSR, S_IXUSR);
        assert(spec_mode_string(mode).subrange(1, 4) =~= seq!['-', '-', '-']);
    }
    if mode & S_IRWXG == S_IRWXG {
        lemma_full_triad_bits(mode, S_IRWXG, S_IRGRP, S_IWGRP, S_IXGRP);
        assert(spec_mode_string(mode).subrange(4, 7) =~= seq!['r', 'w', 'x']);
    }
    if mode & S_IRWXG == 0 {
        lemma_empty_triad_bits(mode, S_IRWXG, S_IRGRP, S_IWGRP, S_IXGRP);
        assert(spec_mode_string(mode).subrange(4, 7) =~= seq!['-', '-', '-']);
    }
    if mode & S_IRWXO == S_IRWXO {
        lemma_full_triad_bits(mode, S_IRWXO, S_IROTH, S_IWOTH, S_IXOTH);
        assert(spec_mode_string(mode).subrange(7, 10) =~= seq!['r', 'w', 'x']);
    }
    if mode & S_IRWXO == 0 {
        lemma_empty_triad_bits(mode, S_IRWXO, S_IROTH, S_IWOTH, S_IXOTH);
        assert(spec_mode_string(mode).subrange(7, 10) =~= seq!['-', '-', '-']);
    }
}

/// A triad whose full mask is clear has none of its three bits set.
proof fn lemma_empty_triad_bits(p: u32, full: u32, r: u32, w: u32, x: u32)
    by (bit_vector)
    requires
        (r | w | x) == full,
        r != 0,
        w != 0,
        x != 0,
        p & full == 0,
    ensures
        p & r != r,
        p & w != w,
        p & x != x,
{
}

} // verus!
