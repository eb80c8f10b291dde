//! The keyword block of the main header as a format: what the scan of the
//! block accepts, stated over the keywords that a block is written from.

use vstd::prelude::*;
use vstd::utf8::{decode_utf8, valid_utf8};
use crate::ascii::EQUALS;
use crate::header::{
    scan, scan_start, scan_step, spec_keywords, HeaderKeywordView, KeywordScan,
};

verus! {

/// A keyword as it lies in a block: the bytes of its name and of its value.
pub struct RawKeyword {
    pub name: Seq<u8>,
    pub value: Seq<u8>,
}

/// Whether a name and a value can be written into a block: the name is not
/// empty and holds neither `=` nor a zero byte, the value holds no zero byte,
/// and both are text in UTF-8.
pub open spec fn is_keyword(k: RawKeyword) -> bool {
    &&& k.name.len() > 0
    &&& forall|i: int| 0 <= i < k.name.len() ==> k.name[i] != EQUALS && k.name[i] != 0
    &&& forall|i: int| 0 <= i < k.value.len() ==> k.value[i] != 0
    &&& valid_utf8(k.name)
    &&& valid_utf8(k.value)
}

/// A keyword as a block holds it: the name, `=`, the value, and a zero byte.
pub open spec fn keyword_bytes(k: RawKeyword) -> Seq<u8> {
    k.name + seq![EQUALS] + k.value + seq![0u8]
}

/// The block that holds the given keywords, one after the other.
pub open spec fn block_bytes(keywords: Seq<RawKeyword>) -> Seq<u8>
    decreases keywords.len(),
{
    if keywords.len() == 0 {
        Seq::empty()
    } else {
        block_bytes(keywords.drop_last()) + keyword_bytes(keywords.last())
    }
}

/// A keyword's name and value as text.
pub open spec fn keyword_text(k: RawKeyword) -> HeaderKeywordView {
    HeaderKeywordView { name: decode_utf8(k.name), value: decode_utf8(k.value) }
}

/// A scan that goes on over more bytes.
pub open spec fn scan_on(s: Option<KeywordScan>, bytes: Seq<u8>) -> Option<KeywordScan>
    decreases bytes.len(),
{
    if bytes.len() == 0 {
        s
    } else {
        match scan_on(s, bytes.drop_last()) {
            Some(t) => scan_step(t, bytes.last()),
            None => None,
        }
    }
}

/// Going on over two runs of bytes is going on over the one and then over
/// the other.
pub proof fn lemma_scan_on_concat(s: Option<KeywordScan>, a: Seq<u8>, b: Seq<u8>)
    ensures
        scan_on(s, a + b) == scan_on(scan_on(s, a), b),
    decreases b.len(),
{
    if b.len() == 0 {
        assert(a + b == a);
    } else {
        assert((a + b).drop_last() == a + b.drop_last());
        lemma_scan_on_concat(s, a, b.drop_last());
    }
}

/// The scan of a block is the scan from the start that goes on over the
/// block.
pub proof fn lemma_scan_is_scan_on(bytes: Seq<u8>)
    ensures
        scan(bytes) == scan_on(Some(scan_start()), bytes),
    decreases bytes.len(),
{
    if bytes.len() > 0 {
        lemma_scan_is_scan_on(bytes.drop_last());
    }
}

/// Within a name, bytes that are neither `=` nor zero are added to the name.
proof fn lemma_scan_on_name(s: KeywordScan, bytes: Seq<u8>)
    requires
        !s.in_value,
        forall|i: int| 0 <= i < bytes.len() ==> bytes[i] != EQUALS && bytes[i] != 0,
    ensures
        scan_on(Some(s), bytes) == Some(KeywordScan { name: s.name + bytes, ..s }),
    decreases bytes.len(),
{
    if bytes.len() == 0 {
        assert(s.name + bytes == s.name);
    } else {
        lemma_scan_on_name(s, bytes.drop_last());
        assert((s.name + bytes.drop_last()).push(bytes.last()) == s.name + bytes);
    }
}

/// Within a value, bytes that are not zero are added to the value.
proof fn lemma_scan_on_value(s: KeywordScan, bytes: Seq<u8>)
    requires
        s.in_value,
        forall|i: int| 0 <= i < bytes.len() ==> bytes[i] != 0,
    ensures
        scan_on(Some(s), bytes) == Some(KeywordScan { value: s.value + bytes, ..s }),
    decreases bytes.len(),
{
    if bytes.len() == 0 {
        assert(s.value + bytes == s.value);
    } else {
        lemma_scan_on_value(s, bytes.drop_last());
        assert((s.value + bytes.drop_last()).push(bytes.last()) == s.value + bytes);
    }
}

/// A scan that stands between two keywords and goes on over a keyword's
/// bytes has found that keyword and stands between two keywords again.
proof fn lemma_scan_on_keyword(s: KeywordScan, k: RawKeyword)
    requires
        !s.in_value,
        s.name.len() == 0,
        s.value.len() == 0,
        is_keyword(k),
    ensures
        scan_on(Some(s), keyword_bytes(k)) == Some(
            KeywordScan {
                found: s.found.push(keyword_text(k)),
                name: Seq::empty(),
                value: Seq::empty(),
                in_value: false,
            },
        ),
{
    let equals = seq![EQUALS];
    let zero = seq![0u8];
    let named = KeywordScan { name: k.name, ..s };
    let opened = KeywordScan { in_value: true, ..named };
    let valued = KeywordScan { value: k.value, ..opened };
    assert(s.name + k.name == k.name);
    assert(s.value + k.value == k.value);
    lemma_scan_on_name(s, k.name);
    assert(scan_on(Some(named), equals) == Some(opened)) by {
        assert(equals.drop_last() == Seq::<u8>::empty());
        reveal_with_fuel(scan_on, 2);
    }
    lemma_scan_on_value(opened, k.value);
    assert(scan_on(Some(valued), zero) == scan_step(valued, 0)) by {
        assert(zero.drop_last() == Seq::<u8>::empty());
        reveal_with_fuel(scan_on, 2);
    }
    lemma_scan_on_concat(Some(s), k.name, equals);
    lemma_scan_on_concat(Some(s), k.name + equals, k.value);
    lemma_scan_on_concat(Some(s), k.name + equals + k.value, zero);
}

/// A scan that goes on over a block of keywords has found them all, in
/// their order.
proof fn lemma_scan_on_block(keywords: Seq<RawKeyword>)
    requires
        forall|i: int| 0 <= i < keywords.len() ==> is_keyword(#[trigger] keywords[i]),
    ensures
        scan_on(Some(scan_start()), block_bytes(keywords)) == Some(
            KeywordScan {
                found: keywords.map_values(|k: RawKeyword| keyword_text(k)),
                name: Seq::empty(),
                value: Seq::empty(),
                in_value: false,
            },
        ),
    decreases keywords.len(),
{
    let text = |k: RawKeyword| keyword_text(k);
    if keywords.len() == 0 {
        assert(keywords.map_values(text) == Seq::<HeaderKeywordView>::empty());
    } else {
        let before = keywords.drop_last();
        lemma_scan_on_block(before);
        let s = KeywordScan {
            found: before.map_values(text),
            name: Seq::empty(),
            value: Seq::empty(),
            in_value: false,
        };
        lemma_scan_on_concat(
            Some(scan_start()),
            block_bytes(before),
            keyword_bytes(keywords.last()),
        );
        lemma_scan_on_keyword(s, keywords.last());
        assert(before.map_values(text).push(keyword_text(keywords.last())) == keywords.map_values(
            text,
        ));
    }
}

/// A block that is written from keywords, each as its name, `=`, its value
/// and a zero byte, is read back as these keywords, in their order.
pub proof fn lemma_block_reads_back(keywords: Seq<RawKeyword>)
    requires
        forall|i: int| 0 <= i < keywords.len() ==> is_keyword(#[trigger] keywords[i]),
    ensures
        spec_keywords(block_bytes(keywords)) == Some(
            keywords.map_values(|k: RawKeyword| keyword_text(k)),
        ),
{
    lemma_scan_is_scan_on(block_bytes(keywords));
    lemma_scan_on_block(keywords);
}

/// The keywords that the scan of a block has found, as names and values in
/// bytes: a keyword is found at each zero byte that ends a value.
pub open spec fn keywords_of(bytes: Seq<u8>) -> Seq<RawKeyword>
    decreases bytes.len(),
{
    if bytes.len() == 0 {
        Seq::empty()
    } else {
        let before = keywords_of(bytes.drop_last());
        match scan(bytes.drop_last()) {
            Some(s) => if s.in_value && bytes.last() == 0 {
                before.push(RawKeyword { name: s.name, value: s.value })
            } else {
                before
            },
            None => before,
        }
    }
}

/// The bytes of the keyword that a scan is within.
pub open spec fn unfinished(s: KeywordScan) -> Seq<u8> {
    if s.in_value {
        s.name + seq![EQUALS] + s.value
    } else {
        s.name
    }
}

/// What holds of a scan that has met no malformed input: the bytes are the
/// block of the keywords found and then the keyword that the scan is within.
pub open spec fn scan_accounts_for(bytes: Seq<u8>, s: KeywordScan) -> bool {
    let found = keywords_of(bytes);
    &&& forall|i: int| 0 <= i < found.len() ==> is_keyword(#[trigger] found[i])
    &&& s.found == found.map_values(|k: RawKeyword| keyword_text(k))
    &&& bytes == block_bytes(found) + unfinished(s)
    &&& forall|i: int| 0 <= i < s.name.len() ==> s.name[i] != EQUALS && s.name[i] != 0
    &&& forall|i: int| 0 <= i < s.value.len() ==> s.value[i] != 0
    &&& !s.in_value ==> s.value.len() == 0
}

/// A scan that has met no malformed input accounts for all of the bytes.
pub proof fn lemma_scan_accounts(bytes: Seq<u8>)
    requires
        scan(bytes) is Some,
    ensures
        scan_accounts_for(bytes, scan(bytes)->Some_0),
    decreases bytes.len(),
{
    let text = |k: RawKeyword| keyword_text(k);
    if bytes.len() == 0 {
        assert(keywords_of(bytes).map_values(text) == Seq::<HeaderKeywordView>::empty());
        assert(bytes == block_bytes(keywords_of(bytes)) + unfinished(scan_start()));
    } else {
        let front = bytes.drop_last();
        let b = bytes.last();
        lemma_scan_accounts(front);
        let s = scan(front)->Some_0;
        let t = scan(bytes)->Some_0;
        let before = keywords_of(front);
        let found = keywords_of(bytes);
        assert(bytes == front.push(b));
        if s.in_value && b == 0 {
            let k = RawKeyword { name: s.name, value: s.value };
            assert(found == before.push(k));
            assert(found.drop_last() == before);
            assert(before.map_values(text).push(keyword_text(k)) == found.map_values(text));
            assert(block_bytes(found) == block_bytes(before) + keyword_bytes(k));
            assert(block_bytes(before) + keyword_bytes(k) == (block_bytes(before) + unfinished(
                s,
            )).push(b));
            assert(block_bytes(found) + unfinished(t) == block_bytes(found));
        } else {
            assert(found == before);
            assert(unfinished(t) == unfinished(s).push(b));
            assert(block_bytes(before) + unfinished(s).push(b) == (block_bytes(before)
                + unfinished(s)).push(b));
        }
    }
}

/// A block that the scan accepts is the block of the keywords that the scan
/// has found in it: the scan accepts nothing but runs of a name, `=`, a value
/// and a zero byte.
pub proof fn lemma_accepted_block_is_keywords(bytes: Seq<u8>)
    requires
        spec_keywords(bytes) is Some,
    ensures
        forall|i: int|
            0 <= i < keywords_of(bytes).len() ==> is_keyword(#[trigger] keywords_of(bytes)[i]),
        block_bytes(keywords_of(bytes)) == bytes,
        spec_keywords(bytes) == Some(
            keywords_of(bytes).map_values(|k: RawKeyword| keyword_text(k)),
        ),
{
    lemma_scan_accounts(bytes);
    let s = scan(bytes)->Some_0;
    assert(block_bytes(keywords_of(bytes)) + unfinished(s) == block_bytes(keywords_of(bytes)));
}

} // verus!
