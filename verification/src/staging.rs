//! Where an encoded file is staged before it takes its final place.

use std::collections::hash_map::DefaultHasher;
use std::hash::Hasher;

use vstd::prelude::*;
use vstd::std_specs::hash::DefaultHasherAdditionalSpecFns;

use crate::path::{
    components, extension_of, file_name, file_name_of, is_plain_name, join, joined, last_dot,
    last_slash, lemma_joined, lemma_last_dot, lemma_last_slash, lemma_name_follows_key,
    lemma_parent_and_name, lemma_trimmed, parent, parent_of, path_key, tail, trimmed,
};
use crate::text::{
    append_hexadecimal, digit_char, hexadecimal, law_hexadecimals_read_as_their_number,
    lemma_hexadecimal_len, numeral_value,
};

verus! {

/// What hashing a text writes to a hasher.
pub uninterp spec fn text_writes(text: Seq<char>) -> Seq<Seq<u8>>;

/// The hash of a text.
pub open spec fn text_hash(text: Seq<char>) -> u64 {
    DefaultHasher::spec_finish(text_writes(text))
}

/// Calls `Hash::hash` of `str`. What it writes to the hasher depends on the text alone.
#[verifier::external_body]
fn hash_text(text: &str, hasher: &mut DefaultHasher)
    ensures
        final(hasher)@ == old(hasher)@ + text_writes(text@),
{
    std::hash::Hash::hash(text, hasher)
}

/// The name of the staging file for a destination: hidden, and marked with a hash.
pub open spec fn staging_name(output: Seq<char>, hash: u64) -> Seq<char> {
    let name = match file_name_of(output) {
        Some(name) => name,
        None => "output"@,
    };
    "."@ + name + "."@ + hexadecimal(hash as nat, 16) + ".tmp"@
}

/// The staging file for a destination, marked with a hash.
pub open spec fn staging_path(output: Seq<char>, hash: u64) -> Seq<char> {
    let dir = match parent_of(output) {
        Some(dir) => dir,
        None => "."@,
    };
    joined(dir, staging_name(output, hash))
}

/// Temporary path used to stage an encode next to its final destination, so the rename that
/// publishes it stays within one volume and is therefore atomic.
///
/// Inputs are unique within a batch and each maps to one destination, so hashing the input
/// keeps concurrent conversions from colliding on the staging file.
pub fn temp_path_for(output_path: &str, input_path: &str) -> (r: String)
    ensures
        r@ == staging_path(output_path@, text_hash(input_path@)),
{
    let dir = match parent(output_path) {
        Some(dir) => dir,
        None => ".".to_owned(),
    };
    let name = match file_name(output_path) {
        Some(name) => name,
        None => "output".to_owned(),
    };
    let mut hasher = DefaultHasher::new();
    hash_text(input_path, &mut hasher);
    let hash: u64 = hasher.finish();
    assert(Seq::<Seq<u8>>::empty() + text_writes(input_path@) =~= text_writes(input_path@));
    let mut staged: String = ".".to_owned();
    staged.append(name.as_str());
    staged.append(".");
    append_hexadecimal(&mut staged, hash, 16);
    staged.append(".tmp");
    join(dir.as_str(), staged.as_str())
}

/// A staging name is a plain file name, longer than the name it stands for.
proof fn lemma_staging_name(output: Seq<char>, hash: u64)
    ensures
        is_plain_name(staging_name(output, hash)),
        staging_name(output, hash).len() > 2,
        file_name_of(output) matches Some(name) ==> staging_name(output, hash).len() > name.len(),
{
    reveal_strlit(".");
    reveal_strlit(".tmp");
    reveal_strlit("output");
    lemma_hexadecimal_len(hash as nat, 16);
    lemma_hexadecimal_digits(hash as nat, 16);
    let t = trimmed(output);
    lemma_last_slash(t);
    let name = match file_name_of(output) {
        Some(name) => name,
        None => "output"@,
    };
    assert forall|i: int| 0 <= i < name.len() implies name[i] != '/' by {
        if file_name_of(output) is Some {
            assert(name[i] == t[last_slash(t) + 1 + i]);
        }
    }
    let staged = staging_name(output, hash);
    let hex = hexadecimal(hash as nat, 16);
    assert(staged.len() == name.len() + 22);
    assert forall|i: int| 0 <= i < staged.len() implies staged[i] != '/' by {
        if i == 0 {
            assert(staged[i] == "."@[0]);
        } else if i < 1 + name.len() {
            assert(staged[i] == name[i - 1]);
        } else if i == 1 + name.len() {
            assert(staged[i] == "."@[0]);
        } else if i < 18 + name.len() {
            assert(staged[i] == hex[i - 2 - name.len()]);
        } else {
            assert(staged[i] == ".tmp"@[i - 18 - name.len()]);
        }
    }
}

/// Hexadecimal numerals hold no slash.
proof fn lemma_hexadecimal_digits(n: nat, width: nat)
    ensures
        forall|i: int|
            0 <= i < hexadecimal(n, width).len() ==> #[trigger] hexadecimal(n, width)[i] != '/',
    decreases width,
{
    if width > 0 {
        lemma_hexadecimal_digits(n / 16, (width - 1) as nat);
        assert(digit_char((n % 16) as int) != '/');
        assert forall|i: int| 0 <= i < hexadecimal(n, width).len() implies #[trigger] hexadecimal(
            n,
            width,
        )[i] != '/' by {
            if i < hexadecimal(n, width).len() - 1 {
                assert(hexadecimal(n, width)[i] == hexadecimal(n / 16, (width - 1) as nat)[i]);
            }
        }
    }
}

/// A staging file has the extension `tmp`.
pub proof fn lemma_staging_extension(output: Seq<char>, hash: u64)
    ensures
        extension_of(staging_path(output, hash)) == Some("tmp"@),
{
    reveal_strlit(".");
    reveal_strlit(".tmp");
    reveal_strlit("tmp");
    lemma_staging_name(output, hash);
    let dir = match parent_of(output) {
        Some(dir) => dir,
        None => "."@,
    };
    let staged = staging_name(output, hash);
    lemma_joined(dir, staged);
    lemma_last_dot(staged);
    assert(staged[staged.len() - 4] == '.');
    assert(staged[staged.len() - 3] == 't');
    assert(staged[staged.len() - 2] == 'm');
    assert(staged[staged.len() - 1] == 'p');
    assert(last_dot(staged) == staged.len() - 4);
    assert(staged.skip(last_dot(staged) + 1) =~= "tmp"@);
    assert(seq!['.', '.'].len() == 2);
}

/// The staging file lies in the directory of its destination.
pub proof fn law_staging_is_beside_the_destination(output: Seq<char>, hash: u64)
    requires
        parent_of(output) is Some,
    ensures
        parent_of(staging_path(output, hash)) is Some,
        path_key(parent_of(staging_path(output, hash))->0) == path_key(parent_of(output)->0),
{
    lemma_staging_name(output, hash);
    lemma_joined(parent_of(output)->0, staging_name(output, hash));
}

/// The last name of a path is its file name, or has at most two characters.
proof fn lemma_last_name(output: Seq<char>)
    requires
        components(output).len() > 0,
    ensures
        file_name_of(output) == Some(components(output).last()) || components(output).last().len()
            <= 2,
{
    lemma_trimmed(output);
    let last = tail(trimmed(output));
    assert(components(output).last() == last);
    assert(seq!['.'].len() == 1 && seq!['.', '.'].len() == 2);
}

/// The staging file is never the destination itself.
pub proof fn law_staging_is_not_the_destination(output: Seq<char>, hash: u64)
    ensures
        path_key(staging_path(output, hash)) != path_key(output),
{
    lemma_staging_name(output, hash);
    let dir = match parent_of(output) {
        Some(dir) => dir,
        None => "."@,
    };
    let staged = staging_name(output, hash);
    lemma_joined(dir, staged);
    let before = components(dir);
    if components(output).len() > 0 {
        lemma_last_name(output);
        assert(before.push(staged).last() == staged);
        assert(components(output).last().len() < staged.len());
    } else {
        assert(before.push(staged).len() > 0);
    }
}

/// Different destinations have different staging files, whatever the hashes are.
pub proof fn law_different_destinations_are_staged_apart(
    output: Seq<char>,
    hash: u64,
    other: Seq<char>,
    other_hash: u64,
)
    requires
        file_name_of(output) is Some,
        file_name_of(other) is Some,
        path_key(output) != path_key(other),
    ensures
        path_key(staging_path(output, hash)) != path_key(staging_path(other, other_hash)),
{
    lemma_parent_and_name(output);
    lemma_parent_and_name(other);
    lemma_staging_name(output, hash);
    lemma_staging_name(other, other_hash);
    let dir = parent_of(output)->0;
    let other_dir = parent_of(other)->0;
    let staged = staging_name(output, hash);
    let other_staged = staging_name(other, other_hash);
    lemma_joined(dir, staged);
    lemma_joined(other_dir, other_staged);
    if path_key(staging_path(output, hash)) == path_key(staging_path(other, other_hash)) {
        let left = components(dir).push(staged);
        let right = components(other_dir).push(other_staged);
        assert(left == right);
        assert(left.last() == staged && right.last() == other_staged);
        assert(left.drop_last() =~= components(dir));
        assert(right.drop_last() =~= components(other_dir));
        lemma_staged_name_inside(output, hash);
        lemma_staged_name_inside(other, other_hash);
        assert(false);
    }
}

/// A staging name holds the file name it stands for.
proof fn lemma_staged_name_inside(output: Seq<char>, hash: u64)
    requires
        file_name_of(output) is Some,
    ensures
        staging_name(output, hash).subrange(1, staging_name(output, hash).len() - 21)
            == file_name_of(output)->0,
{
    reveal_strlit(".");
    reveal_strlit(".tmp");
    lemma_hexadecimal_len(hash as nat, 16);
    let name = file_name_of(output)->0;
    let staged = staging_name(output, hash);
    assert(staged.subrange(1, staged.len() - 21) =~= name);
}

/// A staging file is hidden, and its name is made of the name of the destination, the hash in
/// sixteen hexadecimal digits and the extension `tmp`.
pub proof fn law_staging_names_tell_what_they_stand_for(output: Seq<char>, hash: u64) -> (marks:
    Seq<char>)
    ensures
        file_name_of(staging_path(output, hash)) == Some(
            seq!['.'] + (match file_name_of(output) {
                Some(name) => name,
                None => "output"@,
            }) + seq!['.'] + marks + seq!['.', 't', 'm', 'p'],
        ),
        marks.len() == 16,
        numeral_value(marks, 16) == hash,
        parent_of(output) is None ==> path_key(parent_of(staging_path(output, hash))->0)
            == path_key(seq!['.']),
{
    reveal_strlit(".");
    reveal_strlit(".tmp");
    assert("."@ =~= seq!['.']);
    assert(".tmp"@ =~= seq!['.', 't', 'm', 'p']);
    lemma_staging_name(output, hash);
    let dir = match parent_of(output) {
        Some(dir) => dir,
        None => "."@,
    };
    let staged = staging_name(output, hash);
    assert(seq!['.', '.'].len() == 2);
    lemma_joined(dir, staged);
    law_hexadecimals_read_as_their_number(hash as nat, 16);
    vstd::arithmetic::power::lemma_pow_adds(16, 8, 8);
    vstd::arithmetic::power::lemma_pow_adds(16, 4, 4);
    vstd::arithmetic::power::lemma_pow_adds(16, 2, 2);
    vstd::arithmetic::power::lemma_pow_adds(16, 1, 1);
    vstd::arithmetic::power::lemma_pow1(16);
    assert(vstd::arithmetic::power::pow(16, 2) == 256);
    assert(vstd::arithmetic::power::pow(16, 4) == 65536) by (nonlinear_arith)
        requires
            vstd::arithmetic::power::pow(16, 2) == 256,
            vstd::arithmetic::power::pow(16, 4) == vstd::arithmetic::power::pow(16, 2)
                * vstd::arithmetic::power::pow(16, 2),
    ;
    assert(vstd::arithmetic::power::pow(16, 8) == 0x1_0000_0000) by (nonlinear_arith)
        requires
            vstd::arithmetic::power::pow(16, 4) == 65536,
            vstd::arithmetic::power::pow(16, 8) == vstd::arithmetic::power::pow(16, 4)
                * vstd::arithmetic::power::pow(16, 4),
    ;
    assert(vstd::arithmetic::power::pow(16, 16) == 0x1_0000_0000_0000_0000) by (nonlinear_arith)
        requires
            vstd::arithmetic::power::pow(16, 8) == 0x1_0000_0000,
            vstd::arithmetic::power::pow(16, 16) == vstd::arithmetic::power::pow(16, 8)
                * vstd::arithmetic::power::pow(16, 8),
    ;
    hexadecimal(hash as nat, 16)
}

/// Inputs with different hashes have different staging files, even for one destination.
pub proof fn law_different_inputs_are_staged_apart(output: Seq<char>, hash: u64, other_hash: u64)
    requires
        hash != other_hash,
    ensures
        path_key(staging_path(output, hash)) != path_key(staging_path(output, other_hash)),
{
    let marks = law_staging_names_tell_what_they_stand_for(output, hash);
    let other_marks = law_staging_names_tell_what_they_stand_for(output, other_hash);
    let name = match file_name_of(output) {
        Some(name) => name,
        None => "output"@,
    };
    let a = seq!['.'] + name + seq!['.'] + marks + seq!['.', 't', 'm', 'p'];
    let b = seq!['.'] + name + seq!['.'] + other_marks + seq!['.', 't', 'm', 'p'];
    if path_key(staging_path(output, hash)) == path_key(staging_path(output, other_hash)) {
        lemma_name_follows_key(staging_path(output, hash), staging_path(output, other_hash));
        assert(a.subrange(name.len() as int + 2, name.len() as int + 18) =~= marks);
        assert(b.subrange(name.len() as int + 2, name.len() as int + 18) =~= other_marks);
    }
}

/// The hash that marks a staging file is the one that the standard library's default hasher
/// gives for what hashing the text writes to it, and nothing else.
pub proof fn law_texts_are_hashed_whole(text: Seq<char>)
    ensures
        text_hash(text) == DefaultHasher::spec_finish(text_writes(text)),
{
}

} // verus!
