//! Recognising a creation event in an upstream frame.

use vstd::prelude::*;
use crate::base58::{base58_text, encode_base58};
use crate::record::{CreateRecord, CreateTransaction};
use crate::text::{
    contains_text, ends_with_text, join_lines, join_log_lines, occurs_at, text_contains,
    text_ends_with, texts,
};
use crate::upstream::{
    mint_texts, FrameView, InfoView, TokenBalance, TransactionInfo, UpstreamFrame,
};

verus! {

/// The on-chain program whose creation events are relayed.
pub const PUMP_FUN_PROGRAM_ID: &'static str = "6EF8rrecthR5Dkzon8Nwu78hRvfCKubJ14M5uBEwF6P";

/// What the program logs when a token is created, in either version.
pub const CREATE_MARKER: &'static str = "Instruction: Create";

/// What the program logs when a token is created by the second version.
pub const CREATE_V2_MARKER: &'static str = "Instruction: CreateV2";

/// A log text that shows a creation by the second version of the instruction.
pub open spec fn logs_create_v2(log: Seq<char>) -> bool {
    contains_text(log, CREATE_V2_MARKER@)
}

/// A log text that shows a creation by the first version of the instruction:
/// the creation marker is there and the second version's is nowhere.
pub open spec fn logs_create_v1(log: Seq<char>) -> bool {
    contains_text(log, CREATE_MARKER@) && !logs_create_v2(log)
}

/// Which version of the creation instruction a log text shows, if it names
/// the program and shows a creation at all.
pub open spec fn create_version(log: Seq<char>) -> Option<bool> {
    if contains_text(log, PUMP_FUN_PROGRAM_ID@) && (logs_create_v1(log) || logs_create_v2(log)) {
        Some(logs_create_v2(log))
    } else {
        None
    }
}

/// Tells from the log text whether the program created a token, and if so
/// whether by the second version of the instruction.
pub fn classify_log(log: &str) -> (version: Option<bool>)
    ensures
        version == create_version(log@),
{
    let has_program = text_contains(log, PUMP_FUN_PROGRAM_ID);
    let is_create_v2 = text_contains(log, CREATE_V2_MARKER);
    let is_create = text_contains(log, CREATE_MARKER) && !is_create_v2;
    if !has_program || (!is_create && !is_create_v2) {
        None
    } else {
        Some(is_create_v2)
    }
}

/// The mint text that stands for the zero address, which is never a new token.
pub const ZERO_ADDRESS: &'static str = "11111111111111111111111111111111";

/// The ending by which the program's own mints are told from others.
pub const MINT_SUFFIX: &'static str = "pump";

/// A mint that the transaction brought in: no balance held it before, and its
/// text does not hold the zero address.
pub open spec fn is_new_mint(pre: Seq<Seq<char>>, mint: Seq<char>) -> bool {
    !pre.contains(mint) && !contains_text(mint, ZERO_ADDRESS@)
}

/// A mint whose text ends as the program's own mints do.
pub open spec fn has_mint_suffix(mint: Seq<char>) -> bool {
    ends_with_text(mint, MINT_SUFFIX@)
}

/// The test that picks the new mints, given the mints held before.
pub open spec fn new_mint_test(pre: Seq<Seq<char>>) -> spec_fn(Seq<char>) -> bool {
    |mint: Seq<char>| is_new_mint(pre, mint)
}

/// The test that picks the mints that end as the program's own do.
pub open spec fn mint_suffix_test() -> spec_fn(Seq<char>) -> bool {
    |mint: Seq<char>| has_mint_suffix(mint)
}

/// The new mints among the balances after execution, in their order.
pub open spec fn candidate_mints(pre: Seq<Seq<char>>, post: Seq<Seq<char>>) -> Seq<Seq<char>> {
    post.filter(new_mint_test(pre))
}

/// The candidates that end as the program's own mints do, in their order.
pub open spec fn preferred_mints(candidates: Seq<Seq<char>>) -> Seq<Seq<char>> {
    candidates.filter(mint_suffix_test())
}

/// The mint of the created token: the first preferred candidate, else the
/// first candidate, else none.
pub open spec fn selected_mint(pre: Seq<Seq<char>>, post: Seq<Seq<char>>) -> Option<Seq<char>> {
    let candidates = candidate_mints(pre, post);
    let preferred = preferred_mints(candidates);
    if preferred.len() > 0 {
        Some(preferred[0])
    } else if candidates.len() > 0 {
        Some(candidates[0])
    } else {
        None
    }
}

/// The text of an optional string.
pub open spec fn option_text(text: Option<String>) -> Option<Seq<char>> {
    match text {
        Some(text) => Some(text@),
        None => None,
    }
}

/// Filtering keeps the first element that passes as its own first element.
proof fn lemma_filter_first<A>(s: Seq<A>, keep: spec_fn(A) -> bool, i: int)
    requires
        0 <= i < s.len(),
        keep(s[i]),
        forall|j: int| 0 <= j < i ==> !keep(s[j]),
    ensures
        s.filter(keep).len() > 0,
        s.filter(keep)[0] == s[i],
    decreases s.len(),
{
    reveal(Seq::filter);
    let rest = s.drop_last();
    if i == s.len() - 1 {
        lemma_filter_none(rest, keep);
    } else {
        lemma_filter_first(rest, keep, i);
    }
}

/// Filtering a sequence in which nothing passes leaves nothing.
proof fn lemma_filter_none<A>(s: Seq<A>, keep: spec_fn(A) -> bool)
    requires
        forall|j: int| 0 <= j < s.len() ==> !keep(s[j]),
    ensures
        s.filter(keep).len() == 0,
    decreases s.len(),
{
    reveal(Seq::filter);
    if s.len() > 0 {
        lemma_filter_none(s.drop_last(), keep);
    }
}

/// Every element that filtering keeps passes and comes from the sequence.
proof fn lemma_filter_kept<A>(s: Seq<A>, keep: spec_fn(A) -> bool, k: int)
    requires
        0 <= k < s.filter(keep).len(),
    ensures
        keep(s.filter(keep)[k]),
        s.contains(s.filter(keep)[k]),
    decreases s.len(),
{
    reveal(Seq::filter);
    let rest = s.drop_last();
    if k < rest.filter(keep).len() {
        lemma_filter_kept(rest, keep, k);
        let j = choose|j: int| 0 <= j < rest.len() && rest[j] == rest.filter(keep)[k];
        assert(s[j] == s.filter(keep)[k]);
    } else {
        assert(s[s.len() - 1] == s.filter(keep)[k]);
    }
}

/// Whether some balance in the list is held in the given mint.
fn holds_mint(balances: &Vec<TokenBalance>, mint: &String) -> (found: bool)
    ensures
        found == mint_texts(balances@).contains(mint@),
{
    let mut i: usize = 0;
    while i < balances.len()
        invariant
            i <= balances.len(),
            forall|j: int| 0 <= j < i ==> mint_texts(balances@)[j] != mint@,
        decreases balances.len() - i,
    {
        if balances[i].mint == *mint {
            assert(mint_texts(balances@)[i as int] == mint@);
            return true;
        }
        i += 1;
    }
    false
}

/// Lists the new mints among the balances after execution, in their order.
pub fn candidate_list(pre: &Vec<TokenBalance>, post: &Vec<TokenBalance>) -> (candidates: Vec<
    String,
>)
    ensures
        texts(candidates@) == candidate_mints(mint_texts(pre@), mint_texts(post@)),
{
    let ghost before = mint_texts(pre@);
    let ghost after = mint_texts(post@);
    let mut candidates: Vec<String> = Vec::new();
    let mut i: usize = 0;
    proof {
        reveal(Seq::filter);
        assert(after.take(0).len() == 0);
        assert(texts(candidates@) == candidate_mints(before, after.take(0)));
    }
    while i < post.len()
        invariant
            i <= post.len(),
            before == mint_texts(pre@),
            after == mint_texts(post@),
            texts(candidates@) == candidate_mints(before, after.take(i as int)),
        decreases post.len() - i,
    {
        let mint = &post[i].mint;
        let ghost listed = texts(candidates@);
        proof {
            assert(after.take(i + 1) == after.take(i as int).push(mint@));
            after.take(i as int).lemma_filter_push(mint@, new_mint_test(before));
        }
        if !holds_mint(pre, mint) && !text_contains(mint.as_str(), ZERO_ADDRESS) {
            candidates.push(mint.clone());
            assert(texts(candidates@) == listed.push(mint@));
        }
        i += 1;
    }
    assert(after.take(i as int) == after);
    candidates
}

/// Chooses the mint of the created token from the balances before and after
/// execution.
pub fn select_mint(pre: &Vec<TokenBalance>, post: &Vec<TokenBalance>) -> (mint: Option<String>)
    ensures
        option_text(mint) == selected_mint(mint_texts(pre@), mint_texts(post@)),
{
    let candidates = candidate_list(pre, post);
    let ghost listed = texts(candidates@);
    let mut i: usize = 0;
    while i < candidates.len()
        invariant
            i <= candidates.len(),
            listed == texts(candidates@),
            listed == candidate_mints(mint_texts(pre@), mint_texts(post@)),
            forall|j: int| 0 <= j < i ==> !has_mint_suffix(listed[j]),
        decreases candidates.len() - i,
    {
        if text_ends_with(candidates[i].as_str(), MINT_SUFFIX) {
            proof {
                lemma_filter_first(listed, mint_suffix_test(), i as int);
            }
            return Some(candidates[i].clone());
        }
        i += 1;
    }
    proof {
        lemma_filter_none(listed, mint_suffix_test());
    }
    if candidates.len() > 0 {
        Some(candidates[0].clone())
    } else {
        None
    }
}

/// The test that passes what passes both of two tests.
spec fn both_tests<A>(first: spec_fn(A) -> bool, second: spec_fn(A) -> bool) -> spec_fn(
    A,
) -> bool {
    |x: A| first(x) && second(x)
}

/// Filtering twice keeps what passes both tests.
proof fn lemma_filter_twice<A>(s: Seq<A>, first: spec_fn(A) -> bool, second: spec_fn(A) -> bool)
    ensures
        s.filter(first).filter(second) == s.filter(both_tests(first, second)),
    decreases s.len(),
{
    reveal(Seq::filter);
    if s.len() > 0 {
        let rest = s.drop_last();
        lemma_filter_twice(rest, first, second);
        if first(s.last()) {
            rest.filter(first).lemma_filter_push(s.last(), second);
        }
    }
}

/// The selected mint is new and is the mint of some balance after execution;
/// a mint is selected exactly when some balance after execution holds a new one.
pub proof fn lemma_selected_mint_is_new(pre: Seq<Seq<char>>, post: Seq<Seq<char>>)
    ensures
        selected_mint(pre, post) matches Some(mint) ==> post.contains(mint) && is_new_mint(
            pre,
            mint,
        ),
        selected_mint(pre, post) is None <==> forall|i: int|
            0 <= i < post.len() ==> !is_new_mint(pre, #[trigger] post[i]),
{
    let candidates = candidate_mints(pre, post);
    let preferred = preferred_mints(candidates);
    if preferred.len() > 0 {
        lemma_filter_kept(candidates, mint_suffix_test(), 0);
        let k = choose|k: int| 0 <= k < candidates.len() && candidates[k] == preferred[0];
        lemma_filter_kept(post, new_mint_test(pre), k);
    } else if candidates.len() > 0 {
        lemma_filter_kept(post, new_mint_test(pre), 0);
    }
    if forall|i: int| 0 <= i < post.len() ==> !is_new_mint(pre, #[trigger] post[i]) {
        lemma_filter_none(post, new_mint_test(pre));
        candidates.lemma_filter_len(mint_suffix_test());
    } else {
        let i = choose|i: int| 0 <= i < post.len() && is_new_mint(pre, #[trigger] post[i]);
        post.lemma_filter_contains(new_mint_test(pre), i);
    }
}

/// The zero address is never the selected mint.
pub proof fn lemma_zero_address_never_selected(pre: Seq<Seq<char>>, post: Seq<Seq<char>>)
    ensures
        selected_mint(pre, post) != Some(ZERO_ADDRESS@),
{
    lemma_selected_mint_is_new(pre, post);
    let zero = ZERO_ADDRESS@;
    assert(zero.subrange(0, zero.len() as int) == zero);
    assert(occurs_at(zero, zero, 0));
}

/// Among the balances after execution, the first new mint that ends as the
/// program's own mints do is the selected one.
pub proof fn lemma_first_preferred_mint_selected(pre: Seq<Seq<char>>, post: Seq<Seq<char>>, i: int)
    requires
        0 <= i < post.len(),
        is_new_mint(pre, post[i]),
        has_mint_suffix(post[i]),
        forall|j: int| 0 <= j < i ==> !(is_new_mint(pre, post[j]) && has_mint_suffix(post[j])),
    ensures
        selected_mint(pre, post) == Some(post[i]),
{
    lemma_filter_twice(post, new_mint_test(pre), mint_suffix_test());
    lemma_filter_first(post, both_tests(new_mint_test(pre), mint_suffix_test()), i);
}

/// Where no new mint ends as the program's own mints do, the first new mint
/// among the balances after execution is the selected one.
pub proof fn lemma_first_new_mint_selected(pre: Seq<Seq<char>>, post: Seq<Seq<char>>, i: int)
    requires
        0 <= i < post.len(),
        is_new_mint(pre, post[i]),
        forall|j: int| 0 <= j < i ==> !is_new_mint(pre, post[j]),
        forall|j: int|
            0 <= j < post.len() && is_new_mint(pre, post[j]) ==> !has_mint_suffix(post[j]),
    ensures
        selected_mint(pre, post) == Some(post[i]),
{
    lemma_filter_twice(post, new_mint_test(pre), mint_suffix_test());
    lemma_filter_none(post, both_tests(new_mint_test(pre), mint_suffix_test()));
    lemma_filter_first(post, new_mint_test(pre), i);
}

/// The bytes that the signature text is made from: the signature reported
/// beside the transaction where it is not empty, else the first signature of
/// the transaction itself.
pub open spec fn signature_source(info: InfoView) -> Option<Seq<u8>> {
    if info.signature.len() > 0 {
        Some(info.signature)
    } else {
        match info.transaction {
            Some(transaction) => if transaction.signatures.len() > 0 {
                Some(transaction.signatures[0])
            } else {
                None
            },
            None => None,
        }
    }
}

/// The bytes that the creator text is made from: the first account key of the
/// transaction's message.
pub open spec fn creator_source(info: InfoView) -> Option<Seq<u8>> {
    match info.transaction {
        Some(transaction) => match transaction.account_keys {
            Some(keys) => if keys.len() > 0 {
                Some(keys[0])
            } else {
                None
            },
            None => None,
        },
        None => None,
    }
}

/// The bytes of an optional byte vector.
pub open spec fn option_bytes(bytes: Option<&Vec<u8>>) -> Option<Seq<u8>> {
    match bytes {
        Some(bytes) => Some(bytes@),
        None => None,
    }
}

/// Picks the bytes that the signature text is made from.
pub fn signature_bytes(info: &TransactionInfo) -> (bytes: Option<&Vec<u8>>)
    ensures
        option_bytes(bytes) == signature_source(info@),
{
    if info.signature.len() > 0 {
        Some(&info.signature)
    } else {
        match &info.transaction {
            Some(transaction) => {
                if transaction.signatures.len() > 0 {
                    Some(&transaction.signatures[0])
                } else {
                    None
                }
            },
            None => None,
        }
    }
}

/// Picks the bytes that the creator text is made from.
pub fn creator_bytes(info: &TransactionInfo) -> (bytes: Option<&Vec<u8>>)
    ensures
        option_bytes(bytes) == creator_source(info@),
{
    match &info.transaction {
        Some(transaction) => match &transaction.message {
            Some(message) => {
                if message.account_keys.len() > 0 {
                    Some(&message.account_keys[0])
                } else {
                    None
                }
            },
            None => None,
        },
        None => None,
    }
}

/// The creation event that a frame holds, if it holds one.
///
/// The frame must carry a transaction with its metadata; the joined log text
/// must name the program and show a creation; and a signature, a creator and
/// a mint must be there to take.
pub open spec fn extracted(frame: FrameView) -> Option<CreateRecord> {
    match frame.info {
        Some(info) => match info.meta {
            Some(meta) => match (
                create_version(join_lines(meta.log_lines)),
                signature_source(info),
                creator_source(info),
                selected_mint(meta.pre_mints, meta.post_mints),
            ) {
                (Some(is_create_v2), Some(signature), Some(creator), Some(mint)) => Some(
                    CreateRecord {
                        signature: base58_text(signature),
                        mint_address: mint,
                        creator_address: base58_text(creator),
                        slot: frame.slot,
                        is_create_v2,
                    },
                ),
                _ => None,
            },
            None => None,
        },
        None => None,
    }
}

/// The joined log text of a frame that carries a transaction with metadata.
pub open spec fn log_text(frame: FrameView) -> Option<Seq<char>> {
    match frame.info {
        Some(info) => match info.meta {
            Some(meta) => Some(join_lines(meta.log_lines)),
            None => None,
        },
        None => None,
    }
}

/// The marker of the second version holds the creation marker, so a log text
/// that shows the one shows the other.
pub proof fn lemma_v2_marker_shows_creation(log: Seq<char>)
    requires
        contains_text(log, CREATE_V2_MARKER@),
    ensures
        contains_text(log, CREATE_MARKER@),
{
    reveal_strlit("Instruction: Create");
    reveal_strlit("Instruction: CreateV2");
    let at = choose|at: int| occurs_at(log, CREATE_V2_MARKER@, at);
    let long = CREATE_V2_MARKER@;
    let short = CREATE_MARKER@;
    assert(log.subrange(at, at + short.len()) == log.subrange(at, at + long.len()).subrange(
        0,
        short.len() as int,
    ));
    assert(long.subrange(0, short.len() as int) == short);
    assert(occurs_at(log, short, at));
}

/// A log text is that of a creation exactly when it names the program and
/// holds the creation marker.
pub proof fn lemma_create_version_some(log: Seq<char>)
    ensures
        create_version(log) is Some <==> contains_text(log, PUMP_FUN_PROGRAM_ID@) && contains_text(
            log,
            CREATE_MARKER@,
        ),
{
    if contains_text(log, CREATE_V2_MARKER@) {
        lemma_v2_marker_shows_creation(log);
    }
}

/// A frame whose log text does not name the program, or does not hold the
/// creation marker, holds no creation event.
pub proof fn lemma_unrelated_log_refused(frame: FrameView)
    requires
        log_text(frame) matches Some(log) ==> !contains_text(log, PUMP_FUN_PROGRAM_ID@)
            || !contains_text(log, CREATE_MARKER@),
    ensures
        extracted(frame) is None,
{
    if let Some(log) = log_text(frame) {
        lemma_create_version_some(log);
    }
}

/// An extracted event is of the second version exactly when the log text
/// holds that version's marker, and it keeps the frame's slot.
pub proof fn lemma_extracted_version_and_slot(frame: FrameView)
    ensures
        extracted(frame) matches Some(record) ==> {
            &&& log_text(frame) matches Some(log) && record.is_create_v2 == contains_text(
                log,
                CREATE_V2_MARKER@,
            )
            &&& record.slot == frame.slot
        },
{
}

/// The mint of an extracted event is new among the frame's balances after
/// execution, and is not the zero address.
pub proof fn lemma_extracted_mint_is_new(frame: FrameView)
    ensures
        extracted(frame) matches Some(record) ==> {
            &&& frame.info matches Some(info) && info.meta matches Some(meta)
                && meta.post_mints.contains(record.mint_address) && is_new_mint(
                meta.pre_mints,
                record.mint_address,
            )
            &&& record.mint_address != ZERO_ADDRESS@
        },
{
    if let Some(info) = frame.info {
        if let Some(meta) = info.meta {
            lemma_selected_mint_is_new(meta.pre_mints, meta.post_mints);
            lemma_zero_address_never_selected(meta.pre_mints, meta.post_mints);
        }
    }
}

/// The model of an optional creation event.
pub open spec fn option_record(record: Option<CreateTransaction>) -> Option<CreateRecord> {
    match record {
        Some(record) => Some(record@),
        None => None,
    }
}

/// The bytes that the texts of an event are made from are not empty: the
/// signature bytes, the creator's key and the mint text.
pub open spec fn has_sources(frame: FrameView) -> bool {
    frame.info matches Some(info) && info.meta matches Some(meta) && {
        &&& signature_source(info) matches Some(signature) && signature.len() > 0
        &&& creator_source(info) matches Some(creator) && creator.len() > 0
        &&& selected_mint(meta.pre_mints, meta.post_mints) matches Some(mint) && mint.len() > 0
    }
}

/// Decodes the creation event that an upstream frame holds, or refuses the
/// frame. None of the event's texts is empty where none of the bytes they are
/// made from is.
pub fn parse_create_transaction(tx: &UpstreamFrame) -> (record: Option<CreateTransaction>)
    ensures
        option_record(record) == extracted(tx@),
        has_sources(tx@) ==> (record matches Some(created) ==> created@.has_texts()),
{
    let info = match &tx.transaction {
        Some(info) => info,
        None => { return None; },
    };
    let meta = match &info.meta {
        Some(meta) => meta,
        None => { return None; },
    };
    let log = join_log_lines(&meta.log_messages);
    let is_create_v2 = match classify_log(log.as_str()) {
        Some(is_create_v2) => is_create_v2,
        None => { return None; },
    };
    let signature = match signature_bytes(info) {
        Some(bytes) => encode_base58(bytes.as_slice()),
        None => { return None; },
    };
    let creator_address = match creator_bytes(info) {
        Some(bytes) => encode_base58(bytes.as_slice()),
        None => { return None; },
    };
    let mint_address = match select_mint(&meta.pre_token_balances, &meta.post_token_balances) {
        Some(mint) => mint,
        None => { return None; },
    };
    Some(CreateTransaction { signature, mint_address, creator_address, slot: tx.slot, is_create_v2 })
}

} // verus!
