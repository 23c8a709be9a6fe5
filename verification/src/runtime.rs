//! The execution seam's pure parts: artifact hashing for tamper detection,
//! and preparing CLJ/Kotoba source for the compiler.

use crate::text::{has_prefix, hex_lower, to_hex_lower};
use sha2::{Digest, Sha256};
use vstd::prelude::*;
use vstd::string::*;

verus! {

/// The SHA-256 digest of `data`, as `sha2::Sha256` computes it.
pub uninterp spec fn sha256_digest(data: Seq<u8>) -> Seq<u8>;

/// Calls `sha2::Sha256::digest`. Claimed: the result is `sha256_digest` of
/// the input, and a SHA-256 digest is 32 bytes long.
#[verifier::external_body]
fn sha256(data: &[u8]) -> (d: Vec<u8>)
    ensures
        d@ == sha256_digest(data@),
        d@.len() == 32,
{
    Sha256::digest(data).to_vec()
}

/// Lower-case hex SHA-256 of `bytes`: what a component's
/// `:aiueos/wasm-sha256` must equal for its artifact to be accepted.
pub fn sha256_hex(bytes: &[u8]) -> (r: String)
    ensures
        r@ == hex_lower(sha256_digest(bytes@)),
        r@.len() == 64,
{
    let d = sha256(bytes);
    let r = to_hex_lower(d.as_slice());
    proof {
        crate::text::lemma_hex_lower_len(d@);
    }
    r
}

/// The source without a leading `#!` line: everything after the first
/// newline when the source starts with `#!`, nothing when that line has no
/// newline, and the source itself otherwise.
pub open spec fn strip_shebang_spec(s: Seq<char>) -> Seq<char> {
    if "#!"@.is_prefix_of(s) {
        let rest = s.skip(2);
        match rest.index_of_first('\n') {
            Some(k) => rest.skip(k + 1),
            None => seq![],
        }
    } else {
        s
    }
}

/// Stripping keeps a suffix of the source.
pub proof fn law_strip_shebang_keeps_suffix(s: Seq<char>)
    ensures
        strip_shebang_spec(s).is_suffix_of(s),
{
    reveal_strlit("#!");
    if "#!"@.is_prefix_of(s) {
        let rest = s.skip(2);
        rest.index_of_first_ensures('\n');
        match rest.index_of_first('\n') {
            Some(k) => {
                assert(rest.skip(k + 1).len() == s.len() - (k + 3));
                assert(rest.skip(k + 1) =~= s.subrange(k + 3, s.len() as int));
            },
            None => {
                assert(seq![] =~= s.subrange(s.len() as int, s.len() as int));
            },
        }
    } else {
        assert(s =~= s.subrange(0, s.len() as int));
    }
}

/// Source that does not start with `#!` is left as it is.
pub proof fn law_strip_shebang_keeps_plain_source(s: Seq<char>)
    requires
        !"#!"@.is_prefix_of(s),
    ensures
        strip_shebang_spec(s) == s,
{
}

/// A leading `#!` line is ignored: a source prefixed with one strips to what
/// the source itself strips to, when the source does not start with `#!`.
pub proof fn law_shebang_line_is_ignored(line: Seq<char>, src: Seq<char>)
    requires
        !line.contains('\n'),
        !"#!"@.is_prefix_of(src),
    ensures
        strip_shebang_spec("#!"@ + line + "\n"@ + src) == strip_shebang_spec(src),
{
    reveal_strlit("#!");
    reveal_strlit("\n");
    let s = "#!"@ + line + "\n"@ + src;
    assert(s.subrange(0, 2) =~= "#!"@);
    let rest = s.skip(2);
    assert(rest =~= line + "\n"@ + src);
    assert(rest[line.len() as int] == '\n');
    rest.index_of_first_ensures('\n');
    let k = rest.index_of_first('\n')->Some_0;
    assert(k == line.len()) by {
        if k < line.len() {
            assert(rest[k] == line[k]);
        }
    }
    assert(rest.skip(k + 1) =~= src);
}

/// Drop a leading `#!` line, so that an executable script can be compiled.
pub fn strip_shebang(src: &str) -> (r: &str)
    ensures
        r@ == strip_shebang_spec(src@),
{
    if !has_prefix(src, "#!") {
        return src;
    }
    let n = src.unicode_len();
    proof {
        reveal_strlit("#!");
    }
    let mut i: usize = 2;
    while i < n
        invariant
            n == src@.len(),
            2 <= i <= n,
            "#!"@.is_prefix_of(src@),
            forall|j: int| 2 <= j < i ==> src@[j] != '\n',
        decreases n - i,
    {
        if src.get_char(i) == '\n' {
            let ghost rest = src@.skip(2);
            proof {
                assert(rest[i - 2] == '\n');
                assert(rest.contains('\n'));
                assert forall|j: int| 0 <= j < i - 2 implies rest[j] != '\n' by {
                    assert(rest[j] == src@[j + 2]);
                }
                rest.index_of_first_ensures('\n');
                let k = rest.index_of_first('\n')->Some_0;
                assert(k == i - 2) by {
                    if k < i - 2 {
                        assert(rest[k] == '\n');
                    }
                    if k > i - 2 {
                        assert(rest[i - 2] == '\n');
                    }
                }
                assert(rest.skip(k + 1) =~= src@.subrange(i + 1, n as int));
            }
            return src.substring_char(i + 1, n);
        }
        i = i + 1;
    }
    proof {
        let rest = src@.skip(2);
        rest.index_of_first_ensures('\n');
        assert(!rest.contains('\n')) by {
            if rest.contains('\n') {
                let k = choose|k: int| 0 <= k < rest.len() && rest[k] == '\n';
                assert(src@[k + 2] == '\n');
            }
        }
    }
    let r = src.substring_char(n, n);
    assert(r@ =~= seq![]);
    r
}

} // verus!
