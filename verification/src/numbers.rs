//! Sequences of small numbers and the lines that print them.

use crate::text::{decimal, push_decimal};
use vstd::prelude::*;

verus! {

/// The numbers `1, 2, ..., limit` in increasing order.
pub open spec fn sequence_upto(limit: nat) -> Seq<u8> {
    Seq::new(limit, |i: int| (i + 1) as u8)
}

/// The lines that print some numbers: each number in decimal, on a line
/// of its own.
pub open spec fn lines_of(numbers: Seq<u8>) -> Seq<Seq<char>> {
    numbers.map_values(|n: u8| decimal(n as nat))
}

/// The texts of some strings.
pub open spec fn texts(lines: Seq<String>) -> Seq<Seq<char>> {
    lines.map_values(|line: String| line@)
}

/// The numbers from one to five.
pub open spec fn one_to_five() -> Seq<u8> {
    seq![1u8, 2u8, 3u8, 4u8, 5u8]
}

/// The numbers from one up to and including `limit`.
pub fn generate_sequence(limit: u8) -> (numbers: Vec<u8>)
    ensures
        numbers@ == sequence_upto(limit as nat),
{
    let mut numbers: Vec<u8> = Vec::with_capacity(limit as usize);
    for n in 0..limit
        invariant
            numbers@ == sequence_upto(n as nat),
    {
        numbers.push(n + 1);
        assert(numbers@ =~= sequence_upto((n + 1) as nat));
    }
    numbers
}

/// The numbers from one up to and including `limit`, counted up by hand.
pub fn generate_sequence_2(limit: u8) -> (numbers: Vec<u8>)
    ensures
        numbers@ == sequence_upto(limit as nat),
{
    let mut numbers: Vec<u8> = Vec::new();
    let mut n: u8 = 0;
    while n < limit
        invariant
            n <= limit,
            numbers@ == sequence_upto(n as nat),
        decreases limit - n,
    {
        n = n + 1;
        numbers.push(n);
        assert(numbers@ =~= sequence_upto(n as nat));
    }
    numbers
}

/// The lines that print the numbers of a slice.
pub fn output_sequence(numbers: &[u8]) -> (lines: Vec<String>)
    ensures
        texts(lines@) == lines_of(numbers@),
{
    let mut lines: Vec<String> = Vec::new();
    let mut i: usize = 0;
    while i < numbers.len()
        invariant
            i <= numbers.len(),
            texts(lines@) == lines_of(numbers@.take(i as int)),
        decreases numbers.len() - i,
    {
        let mut line = String::new();
        push_decimal(&mut line, numbers[i] as u64);
        let ghost before = texts(lines@);
        lines.push(line);
        i = i + 1;
        assert(texts(lines@) =~= before.push(decimal(numbers@[i - 1] as nat)));
        assert(texts(lines@) =~= lines_of(numbers@.take(i as int)));
    }
    assert(numbers@.take(numbers.len() as int) =~= numbers@);
    lines
}

/// The lines that print the numbers of an array of five.
pub fn output_sequence_2(numbers: [u8; 5]) -> (lines: Vec<String>)
    ensures
        texts(lines@) == lines_of(numbers@),
{
    output_sequence(numbers.as_slice())
}

/// The lines that print the numbers of a vector.
pub fn output_sequence_3(numbers: Vec<u8>) -> (lines: Vec<String>)
    ensures
        texts(lines@) == lines_of(numbers@),
{
    output_sequence(numbers.as_slice())
}

/// The lines that print the numbers from one to `limit`.
pub fn print(limit: u8) -> (lines: Vec<String>)
    ensures
        texts(lines@) == lines_of(sequence_upto(limit as nat)),
{
    let numbers = generate_sequence(limit);
    output_sequence(numbers.as_slice())
}

/// The lines that print the numbers from one to five, taken from a
/// vector one by one.
pub fn print_2() -> (lines: Vec<String>)
    ensures
        texts(lines@) == lines_of(one_to_five()),
{
    let numbers: Vec<u8> = vec![1, 2, 3, 4, 5];
    assert(numbers@ =~= one_to_five());
    let mut lines: Vec<String> = Vec::new();
    let mut i: usize = 0;
    while i < numbers.len()
        invariant
            i <= numbers.len(),
            texts(lines@) == lines_of(numbers@.take(i as int)),
        decreases numbers.len() - i,
    {
        let mut line = String::new();
        push_decimal(&mut line, numbers[i] as u64);
        let ghost before = texts(lines@);
        lines.push(line);
        i = i + 1;
        assert(texts(lines@) =~= before.push(decimal(numbers@[i - 1] as nat)));
        assert(texts(lines@) =~= lines_of(numbers@.take(i as int)));
    }
    assert(numbers@.take(numbers.len() as int) =~= numbers@);
    lines
}

/// The lines that print the numbers from one to five, held in an array.
pub fn print_3() -> (lines: Vec<String>)
    ensures
        texts(lines@) == lines_of(one_to_five()),
{
    let numbers: [u8; 5] = [1, 2, 3, 4, 5];
    assert(numbers@ =~= one_to_five());
    output_sequence_2(numbers)
}

/// The lines that print the numbers from one to five, held in a vector.
pub fn print_4() -> (lines: Vec<String>)
    ensures
        texts(lines@) == lines_of(one_to_five()),
{
    let numbers: Vec<u8> = vec![1, 2, 3, 4, 5];
    assert(numbers@ =~= one_to_five());
    output_sequence_3(numbers)
}

/// The lines that print the numbers from one to five twice: once from a
/// vector and once from an array, both lent as slices.
pub fn print_5() -> (lines: Vec<String>)
    ensures
        texts(lines@) == lines_of(one_to_five() + one_to_five()),
{
    let vector_numbers: Vec<u8> = vec![1, 2, 3, 4, 5];
    let array_numbers: [u8; 5] = [1, 2, 3, 4, 5];
    assert(vector_numbers@ =~= one_to_five());
    assert(array_numbers@ =~= one_to_five());
    let mut lines = output_sequence(vector_numbers.as_slice());
    let mut more = output_sequence(array_numbers.as_slice());
    let ghost first = texts(lines@);
    let ghost second = texts(more@);
    lines.append(&mut more);
    assert(texts(lines@) =~= first + second);
    assert(lines_of(one_to_five() + one_to_five()) =~= lines_of(one_to_five()) + lines_of(
        one_to_five(),
    ));
    lines
}

} // verus!
