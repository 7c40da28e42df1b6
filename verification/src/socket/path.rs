//! Names and paths of sockets and their lock files.
//!
//! A path is a sequence of bytes, as on Unix.

use vstd::prelude::*;

verus! {

/// The byte that separates the components of a path.
pub const SEPARATOR: u8 = 47;

/// Whether a path starts at the root.
pub open spec fn absolute(path: Seq<u8>) -> bool {
    path.len() > 0 && path[0] == SEPARATOR
}

/// `name` as seen from `directory`: an absolute name stands for itself, any
/// other follows the directory and a separator, which is left out where the
/// directory is empty or ends in one.
pub open spec fn joined(directory: Seq<u8>, name: Seq<u8>) -> Seq<u8> {
    if absolute(name) {
        name
    } else if directory.len() == 0 || directory.last() == SEPARATOR {
        directory + name
    } else {
        directory.push(SEPARATOR) + name
    }
}

/// The name of the lock file that guards a socket: ".lock" comes after the
/// whole name, so that a dot in the name is kept.
pub open spec fn lock_name(name: Seq<u8>) -> Seq<u8> {
    name + seq![46u8, 108u8, 111u8, 99u8, 107u8]
}

/// The decimal digit of a number under ten.
pub open spec fn digit(value: nat) -> char {
    (48 + value) as char
}

/// A number in decimal, without leading zeroes.
pub open spec fn decimal(value: nat) -> Seq<char>
    decreases value,
{
    if value < 10 {
        seq![digit(value)]
    } else {
        decimal(value / 10).push(digit(value % 10))
    }
}

/// The number that a sequence of decimal digits stands for.
pub open spec fn decimal_value(digits: Seq<char>) -> int
    decreases digits.len(),
{
    if digits.len() == 0 {
        0
    } else {
        decimal_value(digits.drop_last()) * 10 + (digits.last() as int - 48)
    }
}

/// The name of the socket with the given number.
pub open spec fn numbered(basename: Seq<char>, index: nat) -> Seq<char> {
    basename.push('-') + decimal(index)
}

/// Decimal notation stands for the number that it was made from.
pub proof fn decimal_reads_back(value: nat)
    ensures
        decimal_value(decimal(value)) == value,
    decreases value,
{
    reveal_with_fuel(decimal_value, 2);
    if value < 10 {
        assert(decimal(value).drop_last() =~= Seq::empty());
    } else {
        decimal_reads_back(value / 10);
        assert(decimal(value).drop_last() =~= decimal(value / 10));
    }
}

/// Sockets with different numbers have different names.
pub proof fn numbered_names_differ(basename: Seq<char>, a: nat, b: nat)
    requires
        a != b,
    ensures
        numbered(basename, a) != numbered(basename, b),
{
    if numbered(basename, a) == numbered(basename, b) {
        let start: int = basename.len() as int + 1;
        assert(numbered(basename, a).skip(start) =~= decimal(a));
        assert(numbered(basename, b).skip(start) =~= decimal(b));
        decimal_reads_back(a);
        decimal_reads_back(b);
    }
}

/// The path of the lock file is the path of the socket with ".lock" after it.
pub proof fn lock_path_extends_socket_path(directory: Seq<u8>, name: Seq<u8>)
    ensures
        joined(directory, lock_name(name)) == lock_name(joined(directory, name)),
{
    assert(joined(directory, lock_name(name)) =~= lock_name(joined(directory, name)));
}

/// In one directory, different names have different paths, unless just one of
/// them is absolute.
pub proof fn joined_paths_differ(directory: Seq<u8>, a: Seq<u8>, b: Seq<u8>)
    requires
        a != b,
        absolute(a) == absolute(b),
    ensures
        joined(directory, a) != joined(directory, b),
{
    let start: int = joined(directory, Seq::empty()).len() as int;
    if !absolute(a) {
        assert(joined(directory, a).skip(start) =~= a);
        assert(joined(directory, b).skip(start) =~= b);
    }
}

/// The bytes of a text are those of its parts.
proof fn encode_concat(a: Seq<char>, b: Seq<char>)
    ensures
        vstd::utf8::encode_utf8(a + b) == vstd::utf8::encode_utf8(a) + vstd::utf8::encode_utf8(b),
    decreases a.len(),
{
    if a.len() == 0 {
        assert(a + b =~= b);
        assert(vstd::utf8::encode_utf8(a) + vstd::utf8::encode_utf8(b) =~= vstd::utf8::encode_utf8(
            b,
        ));
    } else {
        encode_concat(a.drop_first(), b);
        assert((a + b).drop_first() =~= a.drop_first() + b);
        assert((a + b)[0] == a[0]);
        assert(vstd::utf8::encode_utf8(a + b) =~= vstd::utf8::encode_utf8(a)
            + vstd::utf8::encode_utf8(b));
    }
}

/// Decimal notation is made of digits.
proof fn decimal_is_digits(value: nat)
    ensures
        decimal(value).len() > 0,
        forall|i: int|
            0 <= i < decimal(value).len() ==> 48 <= #[trigger] decimal(value)[i] as int <= 57,
    decreases value,
{
    if value >= 10 {
        decimal_is_digits(value / 10);
    }
}

/// The bytes of the name of a numbered socket start with those of the basename
/// and a hyphen, and end in a digit.
pub proof fn numbered_bytes(basename: Seq<char>, index: nat)
    ensures
        ({
            let start = vstd::utf8::encode_utf8(basename.push('-'));
            let name = vstd::utf8::encode_utf8(numbered(basename, index));
            &&& start.len() > 0
            &&& name.len() > start.len()
            &&& name.take(start.len() as int) == start
            &&& 48 <= name.last() <= 57
        }),
{
    let start = vstd::utf8::encode_utf8(basename.push('-'));
    let digits = decimal(index);
    encode_concat(basename.push('-'), digits);
    encode_concat(basename, seq!['-']);
    assert(basename.push('-') =~= basename + seq!['-']);
    vstd::utf8::is_ascii_chars_encode_utf8(seq!['-']);
    decimal_is_digits(index);
    assert(vstd::utf8::is_ascii_chars(digits));
    vstd::utf8::is_ascii_chars_encode_utf8(digits);
    let name = vstd::utf8::encode_utf8(numbered(basename, index));
    assert(name == start + vstd::utf8::encode_utf8(digits));
    assert(name.take(start.len() as int) =~= start);
    assert(name.last() == vstd::utf8::encode_utf8(digits).last());
    assert(digits[digits.len() - 1] as int <= 57);
}

/// Sockets with different numbers have different files, and no socket is at the
/// path of a lock file.
pub proof fn numbered_files_differ(directory: Seq<u8>, basename: Seq<char>, a: nat, b: nat)
    ensures
        ({
            let name_a = vstd::utf8::encode_utf8(numbered(basename, a));
            let name_b = vstd::utf8::encode_utf8(numbered(basename, b));
            &&& a != b ==> joined(directory, name_a) != joined(directory, name_b)
            &&& a != b ==> joined(directory, lock_name(name_a)) != joined(
                directory,
                lock_name(name_b),
            )
            &&& joined(directory, name_a) != joined(directory, lock_name(name_b))
        }),
{
    let name_a = vstd::utf8::encode_utf8(numbered(basename, a));
    let name_b = vstd::utf8::encode_utf8(numbered(basename, b));
    numbered_bytes(basename, a);
    numbered_bytes(basename, b);
    let start = vstd::utf8::encode_utf8(basename.push('-'));
    assert(name_a[0] == name_a.take(start.len() as int)[0]);
    assert(name_b[0] == name_b.take(start.len() as int)[0]);
    if a != b {
        numbered_names_differ(basename, a, b);
        vstd::utf8::encode_utf8_decode_utf8(numbered(basename, a));
        vstd::utf8::encode_utf8_decode_utf8(numbered(basename, b));
        joined_paths_differ(directory, name_a, name_b);
        assert(lock_name(name_a).take(name_a.len() as int) =~= name_a);
        assert(lock_name(name_b).take(name_b.len() as int) =~= name_b);
        assert(lock_name(name_a).len() == name_a.len() + 5);
        assert(lock_name(name_b).len() == name_b.len() + 5);
        joined_paths_differ(directory, lock_name(name_a), lock_name(name_b));
    }
    assert(joined(directory, name_a).last() == name_a.last());
    assert(joined(directory, lock_name(name_b)).last() == 107);
}

/// Joins a name to a directory.
pub fn join(directory: &[u8], name: &[u8]) -> (path: Vec<u8>)
    ensures
        path@ == joined(directory@, name@),
{
    let mut path: Vec<u8> = Vec::new();
    if name.len() == 0 || name[0] != SEPARATOR {
        path.extend_from_slice(directory);
        assert(path@ =~= directory@);
        if directory.len() > 0 && directory[directory.len() - 1] != SEPARATOR {
            path.push(SEPARATOR);
        }
    }
    let ghost start = path@;
    path.extend_from_slice(name);
    assert(path@ =~= start + name@);
    assert(path@ =~= joined(directory@, name@));
    path
}

/// Returns (bind_path, lock_path).
pub fn build_paths(directory: &[u8], socket_name: &str) -> (paths: (Vec<u8>, Vec<u8>))
    ensures
        paths.0@ == joined(directory@, vstd::utf8::encode_utf8(socket_name@)),
        paths.1@ == joined(directory@, lock_name(vstd::utf8::encode_utf8(socket_name@))),
{
    let name = socket_name.as_bytes();
    let mut lock: Vec<u8> = Vec::new();
    lock.extend_from_slice(name);
    lock.extend_from_slice(&[46u8, 108u8, 111u8, 99u8, 107u8]);
    assert(lock@ =~= lock_name(name@));
    (join(directory, name), join(directory, lock.as_slice()))
}

/// The text of one decimal digit.
fn digit_text(value: usize) -> (text: &'static str)
    requires
        value < 10,
    ensures
        text@ == seq![digit(value as nat)],
{
    proof {
        reveal_strlit("0");
        reveal_strlit("1");
        reveal_strlit("2");
        reveal_strlit("3");
        reveal_strlit("4");
        reveal_strlit("5");
        reveal_strlit("6");
        reveal_strlit("7");
        reveal_strlit("8");
        reveal_strlit("9");
    }
    let text = match value {
        0 => "0",
        1 => "1",
        2 => "2",
        3 => "3",
        4 => "4",
        5 => "5",
        6 => "6",
        7 => "7",
        8 => "8",
        _ => "9",
    };
    assert(text@ =~= seq![digit(value as nat)]);
    text
}

/// Appends a number in decimal.
fn push_decimal(text: &mut String, value: usize)
    ensures
        final(text)@ == old(text)@ + decimal(value as nat),
    decreases value,
{
    if value >= 10 {
        push_decimal(text, value / 10);
    }
    text.append(digit_text(value % 10));
    assert(text@ =~= old(text)@ + decimal(value as nat));
}

/// The name of the socket with the given number: the basename, a hyphen and the
/// number.
pub fn candidate_name(basename: &str, index: usize) -> (name: String)
    ensures
        name@ == numbered(basename@, index as nat),
{
    proof {
        reveal_strlit("-");
    }
    let mut name = basename.to_owned();
    name.append("-");
    assert(name@ =~= basename@.push('-'));
    push_decimal(&mut name, index);
    name
}

/// Decimal notation has no leading zero: it starts with one only where it is the
/// single digit of zero.
pub proof fn decimal_has_no_leading_zero(value: nat)
    ensures
        decimal(value).len() > 0,
        decimal(value)[0] == '0' ==> value == 0 && decimal(value).len() == 1,
    decreases value,
{
    if value >= 10 {
        decimal_has_no_leading_zero(value / 10);
        assert(decimal(value)[0] == decimal(value / 10)[0]);
    }
}

/// Decimal notation has as many digits as it takes: the number is under the power
/// of ten with that many zeroes, and not under the one before, unless it is zero.
pub proof fn decimal_has_enough_digits(value: nat)
    ensures
        value < vstd::arithmetic::power::pow(10, decimal(value).len()),
        value > 0 ==> value >= vstd::arithmetic::power::pow(
            10,
            (decimal(value).len() - 1) as nat,
        ),
        value == 0 ==> decimal(value).len() == 1,
    decreases value,
{
    reveal_with_fuel(vstd::arithmetic::power::pow, 2);
    if value >= 10 {
        decimal_has_enough_digits(value / 10);
        decimal_has_no_leading_zero(value / 10);
        assert(decimal(value).len() == decimal(value / 10).len() + 1);
    }
}

/// The digit at each place of decimal notation, counted from the end, says how often
/// the power of ten of that place goes into the number, beyond what the places before
/// it say.
pub proof fn decimal_has_digit_at_each_place(value: nat, place: nat)
    requires
        place < decimal(value).len(),
    ensures
        decimal(value)[decimal(value).len() - 1 - place] as int == 48 + value as int
            / vstd::arithmetic::power::pow(10, place) % 10,
    decreases value,
{
    reveal(vstd::arithmetic::power::pow);
    if value < 10 {
        assert(decimal(value).len() == 1);
    } else if place > 0 {
        let before = (place - 1) as nat;
        decimal_has_digit_at_each_place(value / 10, before);
        vstd::arithmetic::power::lemma_pow_positive(10, before);
        vstd::arithmetic::div_mod::lemma_div_denominator(
            value as int,
            10,
            vstd::arithmetic::power::pow(10, before),
        );
    }
}

/// The name of a numbered socket is the basename, a hyphen and the number in decimal,
/// and nothing else.
pub proof fn numbered_name_is_basename_and_number(basename: Seq<char>, index: nat)
    ensures
        ({
            let name = numbered(basename, index);
            let start = basename.len() as int;
            &&& name.len() == start + 1 + decimal(index).len()
            &&& name.take(start) == basename
            &&& name[start] == '-'
            &&& name.skip(start + 1) == decimal(index)
        }),
{
    let name = numbered(basename, index);
    let start = basename.len() as int;
    assert(name.take(start) =~= basename);
    assert(name.skip(start + 1) =~= decimal(index));
}

/// A path ends in the name that was joined. It is nothing but the name where that
/// starts at the root. Otherwise it starts with the directory, and between the two is
/// one separator where the directory does not bring it, and nothing where it does or
/// is empty.
pub proof fn joined_path_is_directory_and_name(directory: Seq<u8>, name: Seq<u8>)
    ensures
        ({
            let path = joined(directory, name);
            let start = path.len() - name.len();
            &&& start >= 0
            &&& path.skip(start) == name
            &&& name.len() > 0 && name[0] == 47u8 ==> start == 0
            &&& name.len() == 0 || name[0] != 47u8 ==> {
                &&& path.take(directory.len() as int) == directory
                &&& directory.len() == 0 || directory.last() == 47u8 ==> start == directory.len()
                &&& directory.len() > 0 && directory.last() != 47u8 ==> {
                    &&& start == directory.len() + 1
                    &&& path[directory.len() as int] == 47u8
                }
            }
        }),
{
    let path = joined(directory, name);
    assert(path.skip(path.len() - name.len()) =~= name);
    if name.len() == 0 || name[0] != 47u8 {
        assert(path.take(directory.len() as int) =~= directory);
    }
}

/// The name of a lock file is the name of the socket as text, followed by ".lock".
pub proof fn lock_name_is_name_with_suffix(name: Seq<char>)
    ensures
        lock_name(vstd::utf8::encode_utf8(name)) == vstd::utf8::encode_utf8(name + ".lock"@),
{
    reveal_strlit(".lock");
    encode_concat(name, ".lock"@);
    vstd::utf8::is_ascii_chars_encode_utf8(".lock"@);
    assert(vstd::utf8::encode_utf8(".lock"@) =~= seq![46u8, 108u8, 111u8, 99u8, 107u8]);
}

/// The name of a lock file is the name of the socket, byte for byte, followed by the
/// five bytes of ".lock".
pub proof fn lock_name_keeps_name(name: Seq<u8>)
    ensures
        lock_name(name).len() == name.len() + 5,
        lock_name(name).take(name.len() as int) == name,
        lock_name(name).skip(name.len() as int) == vstd::utf8::encode_utf8(".lock"@),
{
    reveal_strlit(".lock");
    vstd::utf8::is_ascii_chars_encode_utf8(".lock"@);
    assert(lock_name(name).take(name.len() as int) =~= name);
    assert(lock_name(name).skip(name.len() as int) =~= vstd::utf8::encode_utf8(".lock"@));
}

} // verus!
