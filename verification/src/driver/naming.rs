//! What the names of work on panes, and the digests of commands, are told apart by.
use vstd::prelude::*;
use vstd::utf8::encode_utf8;

use crate::adapters::tmux::error::{arguments_hash, text_hash};
use crate::hash::{framed, framed_all, lemma_frames_tell_texts, sha256_hex};
use crate::input_ledger::transaction_payload;
use crate::number::{
    big_endian, byte_bound, decimal, lemma_big_endian_injective, lemma_big_endian_length,
    lemma_decimal_injective,
};
use crate::split::{lemma_piece_behind, lemma_whole_piece, pieces};

use super::ownership::{allocation_id, capture_id, cleanup_id};
use super::participant::credential_digest;
use super::records::StoredPaneView;

verus! {

broadcast use vstd::string::group_string_axioms;

/// Whether a text is not longer than a length can be written.
pub open spec fn fits(text: Seq<char>) -> bool {
    encode_utf8(text).len() <= u64::MAX
}

/// What a pane is told apart by, and the run and the activation that it belongs to.
pub open spec fn pane_fits(run_id: Seq<char>, activation_id: Seq<char>, pane: StoredPaneView) -> bool {
    fits(run_id) && fits(activation_id) && fits(pane.pane_id) && fits(pane.window_id) && fits(
        pane.window_name,
    ) && fits(pane.session_id)
}

proof fn lemma_utf8_is_short(s: Seq<char>)
    ensures
        encode_utf8(s).len() <= 4 * s.len(),
    decreases s.len(),
{
    reveal_with_fuel(encode_utf8, 2);
    if s.len() > 0 {
        lemma_utf8_is_short(s.drop_first());
    }
}

proof fn lemma_digits_are_few(n: nat)
    ensures
        decimal(n).len() <= 1 + n / 10,
    decreases n,
{
    if n >= 10 {
        lemma_digits_are_few(n / 10);
    }
}

proof fn lemma_numbers_fit(n: u64)
    ensures
        fits(decimal(n as nat)),
{
    lemma_digits_are_few(n as nat);
    lemma_utf8_is_short(decimal(n as nat));
}

proof fn lemma_numbered_frames_tell(a: Seq<Seq<char>>, m: u64, b: Seq<Seq<char>>, n: u64)
    requires
        framed_all(a) + big_endian(m as nat, 8) == framed_all(b) + big_endian(n as nat, 8),
        forall|i: int| 0 <= i < a.len() ==> fits(#[trigger] a[i]),
        forall|i: int| 0 <= i < b.len() ==> fits(#[trigger] b[i]),
    ensures
        a == b,
        m == n,
{
    let x = framed_all(a);
    let y = framed_all(b);
    lemma_big_endian_length(m as nat, 8);
    lemma_big_endian_length(n as nat, 8);
    assert((x + big_endian(m as nat, 8)).len() == x.len() + 8);
    assert((y + big_endian(n as nat, 8)).len() == y.len() + 8);
    let k = x.len() as int;
    assert((x + big_endian(m as nat, 8)).take(k) =~= x);
    assert((y + big_endian(n as nat, 8)).take(k) =~= y);
    assert((x + big_endian(m as nat, 8)).skip(k) =~= big_endian(m as nat, 8));
    assert((y + big_endian(n as nat, 8)).skip(k) =~= big_endian(n as nat, 8));
    assert(byte_bound(8) == 0x1_0000_0000_0000_0000) by {
        reveal_with_fuel(byte_bound, 9);
    }
    lemma_big_endian_injective(m as nat, n as nat, 8);
    assert forall|i: int| 0 <= i < a.len() implies encode_utf8(#[trigger] a[i]).len()
        <= u64::MAX by {
        assert(fits(a[i]));
    }
    assert forall|i: int| 0 <= i < b.len() implies encode_utf8(#[trigger] b[i]).len()
        <= u64::MAX by {
        assert(fits(b[i]));
    }
    lemma_frames_tell_texts(a, b);
}

/// The name of the work to make a pane is a digest of bytes that tell the run, the activation and the
/// number of the allocation. Told are the bytes of both.
pub proof fn lemma_allocation_names_tell_allocations(
    run: Seq<char>,
    activation: Seq<char>,
    generation: u64,
    other_run: Seq<char>,
    other_activation: Seq<char>,
    other_generation: u64,
) -> (bytes: (Seq<u8>, Seq<u8>))
    requires
        fits(run),
        fits(activation),
        fits(other_run),
        fits(other_activation),
    ensures
        allocation_id(run, activation, generation) == "alloc_"@ + sha256_hex(bytes.0),
        allocation_id(other_run, other_activation, other_generation) == "alloc_"@ + sha256_hex(
            bytes.1,
        ),
        bytes.0 == bytes.1 <==> run == other_run && activation == other_activation && generation
            == other_generation,
{
    let a = Seq::<Seq<char>>::empty().push("tmux-pane-allocation"@).push(run).push(activation).push(
        decimal(generation as nat),
    );
    let b = Seq::<Seq<char>>::empty().push("tmux-pane-allocation"@).push(other_run).push(
        other_activation,
    ).push(decimal(other_generation as nat));
    reveal_strlit("tmux-pane-allocation");
    lemma_utf8_is_short("tmux-pane-allocation"@);
    lemma_numbers_fit(generation);
    lemma_numbers_fit(other_generation);
    if framed_all(a) == framed_all(b) {
        lemma_frames_tell_texts(a, b);
        assert(a[1] == b[1]);
        assert(a[2] == b[2]);
        assert(a[3] == b[3]);
        lemma_decimal_injective(generation as nat, other_generation as nat);
    }
    (framed_all(a), framed_all(b))
}

/// The name of the work to start a helper is a digest of bytes that tell the run, the activation, the
/// pane, its window and the number of its allocation.
pub proof fn lemma_capture_names_tell_panes(
    run: Seq<char>,
    activation: Seq<char>,
    pane: StoredPaneView,
    other_run: Seq<char>,
    other_activation: Seq<char>,
    other: StoredPaneView,
) -> (bytes: (Seq<u8>, Seq<u8>))
    requires
        pane_fits(run, activation, pane),
        pane_fits(other_run, other_activation, other),
    ensures
        capture_id(run, activation, pane) == "capture-"@ + sha256_hex(bytes.0),
        capture_id(other_run, other_activation, other) == "capture-"@ + sha256_hex(bytes.1),
        bytes.0 == bytes.1 <==> run == other_run && activation == other_activation && pane.pane_id
            == other.pane_id && pane.window_id == other.window_id && pane.allocation_generation
            == other.allocation_generation,
{
    let a = Seq::<Seq<char>>::empty().push("humanize.tmux.pipe_capture.v1"@).push(run).push(
        activation,
    ).push(pane.pane_id).push(pane.window_id);
    let b = Seq::<Seq<char>>::empty().push("humanize.tmux.pipe_capture.v1"@).push(other_run).push(
        other_activation,
    ).push(other.pane_id).push(other.window_id);
    let x = framed_all(a) + big_endian(pane.allocation_generation as nat, 8);
    let y = framed_all(b) + big_endian(other.allocation_generation as nat, 8);
    reveal_strlit("humanize.tmux.pipe_capture.v1");
    lemma_utf8_is_short("humanize.tmux.pipe_capture.v1"@);
    if x == y {
        lemma_numbered_frames_tell(a, pane.allocation_generation, b, other.allocation_generation);
        assert(a[1] == b[1]);
        assert(a[2] == b[2]);
        assert(a[3] == b[3]);
        assert(a[4] == b[4]);
    }
    (x, y)
}

/// The name of the work to end a pane is a digest of bytes that tell the run, the activation and the
/// pane with its session, its window and the number of its allocation.
pub proof fn lemma_cleanup_names_tell_panes(
    run: Seq<char>,
    activation: Seq<char>,
    pane: StoredPaneView,
    other_run: Seq<char>,
    other_activation: Seq<char>,
    other: StoredPaneView,
) -> (bytes: (Seq<u8>, Seq<u8>))
    requires
        pane_fits(run, activation, pane),
        pane_fits(other_run, other_activation, other),
    ensures
        cleanup_id(run, activation, pane) == "cleanup-"@ + sha256_hex(bytes.0),
        cleanup_id(other_run, other_activation, other) == "cleanup-"@ + sha256_hex(bytes.1),
        bytes.0 == bytes.1 <==> run == other_run && activation == other_activation && pane == other,
{
    let a = Seq::<Seq<char>>::empty().push("humanize.tmux.pane_cleanup.v1"@).push(run).push(
        activation,
    ).push(pane.session_id).push(pane.window_id).push(pane.window_name).push(pane.pane_id);
    let b = Seq::<Seq<char>>::empty().push("humanize.tmux.pane_cleanup.v1"@).push(other_run).push(
        other_activation,
    ).push(other.session_id).push(other.window_id).push(other.window_name).push(other.pane_id);
    let x = framed_all(a) + big_endian(pane.allocation_generation as nat, 8);
    let y = framed_all(b) + big_endian(other.allocation_generation as nat, 8);
    reveal_strlit("humanize.tmux.pane_cleanup.v1");
    lemma_utf8_is_short("humanize.tmux.pane_cleanup.v1"@);
    if x == y {
        lemma_numbered_frames_tell(a, pane.allocation_generation, b, other.allocation_generation);
        assert(a[1] == b[1]);
        assert(a[2] == b[2]);
        assert(a[3] == b[3]);
        assert(a[4] == b[4]);
        assert(a[5] == b[5]);
        assert(a[6] == b[6]);
    }
    (x, y)
}

/// The digest of a command is one of bytes that tell every word of it.
pub proof fn lemma_command_digests_tell_commands(a: Seq<Seq<char>>, b: Seq<Seq<char>>) -> (bytes: (
    Seq<u8>,
    Seq<u8>,
))
    requires
        forall|i: int| 0 <= i < a.len() ==> fits(#[trigger] a[i]),
        forall|i: int| 0 <= i < b.len() ==> fits(#[trigger] b[i]),
    ensures
        arguments_hash(a) == "sha256:"@ + sha256_hex(bytes.0),
        arguments_hash(b) == "sha256:"@ + sha256_hex(bytes.1),
        bytes.0 == bytes.1 <==> a == b,
{
    let x = big_endian(a.len(), 8) + framed_all(a);
    let y = big_endian(b.len(), 8) + framed_all(b);
    lemma_big_endian_length(a.len(), 8);
    lemma_big_endian_length(b.len(), 8);
    if x == y {
        assert(x.skip(8) =~= framed_all(a));
        assert(y.skip(8) =~= framed_all(b));
        assert forall|i: int| 0 <= i < a.len() implies encode_utf8(#[trigger] a[i]).len()
            <= u64::MAX by {
            assert(fits(a[i]));
        }
        assert forall|i: int| 0 <= i < b.len() implies encode_utf8(#[trigger] b[i]).len()
            <= u64::MAX by {
            assert(fits(b[i]));
        }
        lemma_frames_tell_texts(a, b);
    }
    (x, y)
}

/// The digest of a text is one of bytes that tell the text.
pub proof fn lemma_text_digests_tell_texts(a: Seq<char>, b: Seq<char>) -> (bytes: (
    Seq<u8>,
    Seq<u8>,
))
    requires
        fits(a),
        fits(b),
    ensures
        text_hash(a) == "sha256:"@ + sha256_hex(bytes.0),
        text_hash(b) == "sha256:"@ + sha256_hex(bytes.1),
        bytes.0 == bytes.1 <==> a == b,
{
    let x = seq![a];
    let y = seq![b];
    assert(x.drop_last() =~= Seq::<Seq<char>>::empty());
    assert(y.drop_last() =~= Seq::<Seq<char>>::empty());
    reveal_with_fuel(framed_all, 2);
    assert(framed_all(x) =~= framed(a));
    assert(framed_all(y) =~= framed(b));
    if framed(a) == framed(b) {
        lemma_frames_tell_texts(x, y);
        assert(x[0] == y[0]);
    }
    (framed(a), framed(b))
}

/// What is kept of a credential is a digest of its bytes, which tell it.
pub proof fn lemma_credential_digests_tell_credentials(a: Seq<char>, b: Seq<char>)
    ensures
        credential_digest(a) == "sha256:"@ + sha256_hex(encode_utf8(a)),
        encode_utf8(a) == encode_utf8(b) <==> a == b,
{
    vstd::utf8::encode_utf8_decode_utf8(a);
    vstd::utf8::encode_utf8_decode_utf8(b);
}

proof fn lemma_digits_hold_no_nul(n: nat)
    ensures
        !decimal(n).contains('\0'),
    decreases n,
{
    if n >= 10 {
        lemma_digits_hold_no_nul(n / 10);
        let front = decimal(n / 10);
        assert forall|i: int| 0 <= i < decimal(n).len() implies decimal(n)[i] != '\0' by {
            if i < front.len() {
                assert(front[i] == decimal(n)[i]);
                assert(front.contains(front[i]));
            }
        }
    } else {
        assert forall|i: int| 0 <= i < decimal(n).len() implies decimal(n)[i] != '\0' by {
        }
    }
}

proof fn lemma_payload_pieces(
    run: Seq<char>,
    activation: Seq<char>,
    pane: Seq<char>,
    hash: Seq<char>,
    at: u64,
    sequence: u64,
)
    requires
        !run.contains('\0'),
        !activation.contains('\0'),
        !pane.contains('\0'),
        !hash.contains('\0'),
    ensures
        pieces(transaction_payload(run, activation, pane, hash, at, sequence), '\0') == seq![
            run,
            activation,
            pane,
            hash,
            decimal(at as nat),
            decimal(sequence as nat),
        ],
{
    reveal_strlit("\0");
    lemma_digits_hold_no_nul(at as nat);
    lemma_digits_hold_no_nul(sequence as nat);
    let b = run.push('\0') + activation;
    let c = b.push('\0') + pane;
    let d = c.push('\0') + hash;
    let e = d.push('\0') + decimal(at as nat);
    let f = e.push('\0') + decimal(sequence as nat);
    lemma_whole_piece(run, '\0');
    lemma_piece_behind(run, activation, '\0');
    lemma_piece_behind(b, pane, '\0');
    lemma_piece_behind(c, hash, '\0');
    lemma_piece_behind(d, decimal(at as nat), '\0');
    lemma_piece_behind(e, decimal(sequence as nat), '\0');
    assert(transaction_payload(run, activation, pane, hash, at, sequence) =~= f);
    assert(pieces(f, '\0') =~= seq![
        run,
        activation,
        pane,
        hash,
        decimal(at as nat),
        decimal(sequence as nat),
    ]);
}

/// What the number of a transaction is made from tells the run, the activation, the pane, what is sent,
/// when, and which one it is, where no part holds the character that parts them.
pub proof fn lemma_transactions_are_told_apart(
    a: (Seq<char>, Seq<char>, Seq<char>, Seq<char>, u64, u64),
    b: (Seq<char>, Seq<char>, Seq<char>, Seq<char>, u64, u64),
)
    requires
        !a.0.contains('\0') && !a.1.contains('\0') && !a.2.contains('\0') && !a.3.contains('\0'),
        !b.0.contains('\0') && !b.1.contains('\0') && !b.2.contains('\0') && !b.3.contains('\0'),
        transaction_payload(a.0, a.1, a.2, a.3, a.4, a.5) == transaction_payload(
            b.0,
            b.1,
            b.2,
            b.3,
            b.4,
            b.5,
        ),
    ensures
        a == b,
{
    lemma_payload_pieces(a.0, a.1, a.2, a.3, a.4, a.5);
    lemma_payload_pieces(b.0, b.1, b.2, b.3, b.4, b.5);
    let x = pieces(transaction_payload(a.0, a.1, a.2, a.3, a.4, a.5), '\0');
    let y = pieces(transaction_payload(b.0, b.1, b.2, b.3, b.4, b.5), '\0');
    assert(x == y);
    assert(x[0] == y[0] && x[1] == y[1] && x[2] == y[2] && x[3] == y[3]);
    assert(x[4] == y[4] && x[5] == y[5]);
    lemma_decimal_injective(a.4 as nat, b.4 as nat);
    lemma_decimal_injective(a.5 as nat, b.5 as nat);
}

} // verus!
