//! The text of a memory dump: a region shown as 32-bit words, four to a
//! row, each row led by its address.

use crate::hex::{lower_hex_padded, push_lower_hex};
use vstd::prelude::*;
use vstd::string::*;

verus! {

/// The first message of a dump: the range of addresses shown.
pub open spec fn dump_header(addr: nat, size: nat) -> Seq<char> {
    "Memory dump from 0x"@ + lower_hex_padded(addr, 8) + " to 0x"@ + lower_hex_padded(
        (addr + size - 1) as nat,
        8,
    ) + ":"@
}

/// The message that opens the row of word `i`: a line break and the
/// address of the word.
pub open spec fn dump_row(addr: nat, i: nat) -> Seq<char> {
    "\n0x"@ + lower_hex_padded(addr + 4 * i, 8) + ":"@
}

/// The message that shows one word.
pub open spec fn dump_word(value: u32) -> Seq<char> {
    " 0x"@ + lower_hex_padded(value as nat, 8)
}

/// The messages that show the words: each word in its own message, and a
/// row message before every fourth word, the first included.
pub open spec fn dump_body(addr: nat, words: Seq<u32>) -> Seq<Seq<char>>
    decreases words.len(),
{
    if words.len() == 0 {
        Seq::empty()
    } else {
        let i = (words.len() - 1) as nat;
        let before = dump_body(addr, words.drop_last());
        if i % 4 == 0 {
            before.push(dump_row(addr, i)).push(dump_word(words.last()))
        } else {
            before.push(dump_word(words.last()))
        }
    }
}

/// All the messages of a dump: the header, the words, and an empty message
/// that ends the last row.
pub open spec fn dump_text(addr: nat, size: nat, words: Seq<u32>) -> Seq<Seq<char>> {
    seq![dump_header(addr, size)] + dump_body(addr, words) + seq![Seq::<char>::empty()]
}

/// The texts of a list of strings.
pub open spec fn texts(list: Seq<String>) -> Seq<Seq<char>> {
    Seq::new(list.len(), |i: int| list[i]@)
}

/// Writes the messages of a dump of `size` bytes at `addr`, whose words
/// are `words`.
pub fn dump_messages(addr: usize, size: usize, words: &Vec<u32>) -> (list: Vec<String>)
    requires
        1 <= addr + size <= usize::MAX,
        words@.len() == size / 4,
    ensures
        texts(list@) == dump_text(addr as nat, size as nat, words@),
{
    let mut list: Vec<String> = Vec::new();
    let mut header = String::from_str("Memory dump from 0x");
    push_lower_hex(&mut header, addr as u64, 8);
    header.append(" to 0x");
    push_lower_hex(&mut header, (addr + size - 1) as u64, 8);
    header.append(":");
    list.push(header);
    assert(texts(list@) =~= seq![dump_header(addr as nat, size as nat)]);
    let mut i: usize = 0;
    while i < words.len()
        invariant
            i <= words.len(),
            words@.len() == size / 4,
            addr + size <= usize::MAX,
            texts(list@) == seq![dump_header(addr as nat, size as nat)] + dump_body(
                addr as nat,
                words@.subrange(0, i as int),
            ),
        decreases words.len() - i,
    {
        let ghost before = texts(list@);
        let ghost shown = words@.subrange(0, i as int);
        let ghost next = words@.subrange(0, i as int + 1);
        proof {
            assert(next.drop_last() =~= shown);
            assert(next.last() == words@[i as int]);
        }
        if i % 4 == 0 {
            let mut row = String::from_str("\n0x");
            push_lower_hex(&mut row, (addr + i * 4) as u64, 8);
            row.append(":");
            list.push(row);
        }
        let mut word = String::from_str(" 0x");
        push_lower_hex(&mut word, words[i] as u64, 8);
        list.push(word);
        proof {
            let head = seq![dump_header(addr as nat, size as nat)];
            if i % 4 == 0 {
                assert(texts(list@) =~= before.push(dump_row(addr as nat, i as nat)).push(
                    dump_word(words@[i as int]),
                ));
                assert(head + dump_body(addr as nat, shown).push(dump_row(addr as nat, i as nat)).push(
                    dump_word(words@[i as int]),
                ) =~= (head + dump_body(addr as nat, shown)).push(
                    dump_row(addr as nat, i as nat),
                ).push(dump_word(words@[i as int])));
            } else {
                assert(texts(list@) =~= before.push(dump_word(words@[i as int])));
                assert(head + dump_body(addr as nat, shown).push(dump_word(words@[i as int])) =~= (
                head + dump_body(addr as nat, shown)).push(dump_word(words@[i as int])));
            }
        }
        i += 1;
    }
    let ghost body = texts(list@);
    list.push(String::from_str(""));
    proof {
        reveal_strlit("");
        assert(""@ =~= Seq::<char>::empty());
        assert(words@.subrange(0, words@.len() as int) =~= words@);
        assert(texts(list@) =~= body.push(Seq::<char>::empty()));
        assert(texts(list@) =~= dump_text(addr as nat, size as nat, words@));
    }
    list
}

} // verus!
