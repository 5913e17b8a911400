//! Command dispatcher: maps a received notification payload to a runnable
//! command line rooted under the scripts directory.

use vstd::prelude::*;
use vstd::string::StringExecFns;
use vstd::utf8::{decode_utf8, encode_utf8, valid_utf8};
use crate::paths::{descendant_of, lemma_join_is_descendant, path_escapes, rel_path_escapes};

verus! {

/// Why a payload yields no invocation.
#[derive(Clone, Copy, PartialEq, Eq, Structural, Debug)]
pub enum CommandError {
    /// The notification carried no bytes, or named no word at all.
    EmptyPayload,
    /// The payload is not valid text, or a quote in it is unbalanced.
    MalformedPayload,
    /// The named path would resolve outside the scripts directory.
    PathEscape,
}

/// A command line ready for the execution sandbox: the program path resolved
/// under the scripts directory, and its arguments.
#[derive(Clone, PartialEq, Eq, Debug)]
pub struct ScriptInvocation {
    pub program: String,
    pub args: Vec<String>,
}

/// Mathematical model of an invocation.
#[verifier::ext_equal]
pub ghost struct InvocationModel {
    pub program: Seq<char>,
    pub args: Seq<Seq<char>>,
}

impl View for ScriptInvocation {
    type V = InvocationModel;

    open spec fn view(&self) -> InvocationModel {
        InvocationModel { program: self.program@, args: self.args.deep_view() }
    }
}

/// What `shell_words::split` returns for the given text: the POSIX shell word
/// splitting of the text, or nothing when a quote is unbalanced.
pub uninterp spec fn shell_split(s: Seq<char>) -> Option<Seq<Seq<char>>>;

/// A character that shell word splitting passes through unchanged: not a
/// delimiter, quote, backslash or comment introducer.
pub open spec fn plain_shell_char(c: char) -> bool {
    c != ' ' && c != '\t' && c != '\n' && c != '\'' && c != '"' && c != '\\' && c != '#'
}

/// A non-empty word of plain characters, which shell splitting returns whole.
pub open spec fn plain_word(s: Seq<char>) -> bool {
    s.len() > 0 && (forall|i: int| 0 <= i < s.len() ==> plain_shell_char(s[i]))
}

/// Relies on shell_words::split: POSIX shell word splitting with quote
/// removal, whose one error is an unmatched quote, and which returns a
/// non-empty word free of delimiters, quotes, backslashes and comment signs as
/// that single word.
#[verifier::external_body]
fn split_words(s: &str) -> (r: Option<Vec<String>>)
    ensures
        r is Some <==> shell_split(s@) is Some,
        r matches Some(v) ==> Some(v.deep_view()) == shell_split(s@),
        r is Some || !plain_word(s@),
        r matches Some(v) ==> (plain_word(s@) ==> v.deep_view() == seq![s@]),
{
    match shell_words::split(s) {
        Ok(words) => Some(words),
        Err(_) => None,
    }
}

/// Relies on String::from_utf8: succeeds exactly on valid UTF-8 input and
/// yields its decoding.
#[verifier::external_body]
fn decode_text(data: &[u8]) -> (r: Option<String>)
    ensures
        r is Some <==> valid_utf8(data@),
        r matches Some(s) ==> s@ == decode_utf8(data@),
{
    match String::from_utf8(data.to_vec()) {
        Ok(s) => Some(s),
        Err(_) => None,
    }
}

/// Prefixes a relative script path with the scripts directory and a separator.
fn join_under_root(root: &str, rel: &str) -> (r: String)
    ensures
        r@ == root@ + seq!['/'] + rel@,
{
    let mut out = root.to_owned();
    out.append("/");
    out.append(rel);
    proof {
        reveal_strlit("/");
        assert("/"@ =~= seq!['/']);
        assert(out@ =~= root@ + seq!['/'] + rel@);
    }
    out
}

/// The full script path derived from a notification payload: empty payloads
/// and non-text payloads are rejected, and the decoded text may not escape the
/// scripts directory.
pub open spec fn spec_get_script(data: Seq<u8>, root: Seq<char>) -> Result<Seq<char>, CommandError> {
    if data.len() == 0 {
        Err(CommandError::EmptyPayload)
    } else if !valid_utf8(data) {
        Err(CommandError::MalformedPayload)
    } else if path_escapes(decode_utf8(data)) {
        Err(CommandError::PathEscape)
    } else {
        Ok(root + seq!['/'] + decode_utf8(data))
    }
}

/// Turns the bytes of one notification into the full path of the script to
/// execute, resolved under `scripts_root`.
pub fn get_script_to_execute_from_data(data: &[u8], scripts_root: &str) -> (r: Result<
    String,
    CommandError,
>)
    ensures
        match r {
            Ok(path) => spec_get_script(data@, scripts_root@) == Ok::<Seq<char>, CommandError>(
                path@,
            ),
            Err(e) => spec_get_script(data@, scripts_root@) == Err::<Seq<char>, CommandError>(e),
        },
        r matches Ok(path) ==> descendant_of(path@, scripts_root@),
{
    if data.len() == 0 {
        return Err(CommandError::EmptyPayload);
    }
    let text = match decode_text(data) {
        Some(t) => t,
        None => { return Err(CommandError::MalformedPayload) },
    };
    if rel_path_escapes(text.as_str()) {
        return Err(CommandError::PathEscape);
    }
    let path = join_under_root(scripts_root, text.as_str());
    proof {
        lemma_join_is_descendant(scripts_root@, text@);
    }
    Ok(path)
}

/// Round trip: the UTF-8 encoding of a non-empty, non-escaping relative script
/// name resolves to exactly the scripts root, a separator, and that name.
pub proof fn lemma_script_path_round_trip(name: Seq<char>, root: Seq<char>)
    requires
        name.len() > 0,
        !path_escapes(name),
    ensures
        spec_get_script(encode_utf8(name), root) == Ok::<Seq<char>, CommandError>(
            root + seq!['/'] + name,
        ),
{
    broadcast use vstd::utf8::encode_utf8_valid_utf8, vstd::utf8::encode_utf8_decode_utf8;

    if encode_utf8(name).len() == 0 {
        assert(decode_utf8(encode_utf8(name)) == name);
        assert(valid_utf8(Seq::<u8>::empty()));
        assert(decode_utf8(Seq::<u8>::empty()) =~= Seq::<char>::empty());
        assert(false);
    }
}

/// The invocation derived from a notification payload: the decoded text is
/// split into shell words; the first word, checked against escape, names the
/// script under the root, and the remaining words are its arguments.
pub open spec fn spec_build_invocation(payload: Seq<u8>, root: Seq<char>) -> Result<
    InvocationModel,
    CommandError,
> {
    if payload.len() == 0 {
        Err(CommandError::EmptyPayload)
    } else if !valid_utf8(payload) {
        Err(CommandError::MalformedPayload)
    } else {
        match shell_split(decode_utf8(payload)) {
            None => Err(CommandError::MalformedPayload),
            Some(words) => {
                if words.len() == 0 {
                    Err(CommandError::EmptyPayload)
                } else if path_escapes(words[0]) {
                    Err(CommandError::PathEscape)
                } else {
                    Ok(
                        InvocationModel {
                            program: root + seq!['/'] + words[0],
                            args: words.drop_first(),
                        },
                    )
                }
            },
        }
    }
}

/// Builds the command line for one notification payload.  A payload that is a
/// single plain word round-trips: it resolves to exactly that script under the
/// root, with no arguments.
pub fn build_invocation(payload: &[u8], scripts_root: &str) -> (r: Result<
    ScriptInvocation,
    CommandError,
>)
    ensures
        match r {
            Ok(inv) => spec_build_invocation(payload@, scripts_root@) == Ok::<
                InvocationModel,
                CommandError,
            >(inv@),
            Err(e) => spec_build_invocation(payload@, scripts_root@) == Err::<
                InvocationModel,
                CommandError,
            >(e),
        },
        r matches Ok(inv) ==> descendant_of(inv@.program, scripts_root@),
        valid_utf8(payload@) && plain_word(decode_utf8(payload@)) && !path_escapes(
            decode_utf8(payload@),
        ) ==> (r matches Ok(inv) && inv@.program == scripts_root@ + seq!['/'] + decode_utf8(
            payload@,
        ) && inv@.args =~= Seq::<Seq<char>>::empty()),
{
    if payload.len() == 0 {
        proof {
            assert(decode_utf8(payload@) =~= Seq::<char>::empty());
        }
        return Err(CommandError::EmptyPayload);
    }
    let text = match decode_text(payload) {
        Some(t) => t,
        None => { return Err(CommandError::MalformedPayload) },
    };
    let words = match split_words(text.as_str()) {
        Some(w) => w,
        None => { return Err(CommandError::MalformedPayload) },
    };
    if words.len() == 0 {
        return Err(CommandError::EmptyPayload);
    }
    if rel_path_escapes(words[0].as_str()) {
        proof {
            assert(words.deep_view()[0] == words@[0]@);
        }
        return Err(CommandError::PathEscape);
    }
    let program = join_under_root(scripts_root, words[0].as_str());
    let mut args: Vec<String> = Vec::new();
    let mut i: usize = 1;
    while i < words.len()
        invariant
            1 <= i <= words@.len(),
            args@ =~= words@.subrange(1, i as int),
        decreases words@.len() - i,
    {
        args.push(words[i].clone());
        proof {
            assert(args@ =~= words@.subrange(1, i + 1int));
        }
        i = i + 1;
    }
    let inv = ScriptInvocation { program, args };
    proof {
        let wm = words.deep_view();
        assert(wm[0] == words@[0]@);
        assert(args@ =~= words@.subrange(1, words@.len() as int));
        assert forall|j: int| 0 <= j < args@.len() implies args.deep_view()[j]
            == wm.drop_first()[j] by {
            assert(args@[j] == words@[j + 1]);
            assert(args.deep_view()[j] == args@[j]@);
            assert(wm[j + 1] == words@[j + 1]@);
        }
        assert(args.deep_view() =~~= wm.drop_first());
        assert(inv@ =~~= InvocationModel {
            program: scripts_root@ + seq!['/'] + wm[0],
            args: wm.drop_first(),
        });
        lemma_join_is_descendant(scripts_root@, wm[0]);
    }
    Ok(inv)
}

/// An empty payload is rejected as `EmptyPayload`; non-empty bytes that are
/// not valid text are rejected as `MalformedPayload`.
pub proof fn lemma_dispatch_rejections(payload: Seq<u8>, root: Seq<char>)
    ensures
        payload.len() == 0 ==> spec_build_invocation(payload, root) == Err::<
            InvocationModel,
            CommandError,
        >(CommandError::EmptyPayload),
        payload.len() > 0 && !valid_utf8(payload) ==> spec_build_invocation(payload, root) == Err::<
            InvocationModel,
            CommandError,
        >(CommandError::MalformedPayload),
{
}

/// A successful invocation resolves beneath the scripts root, and a first word
/// that climbs out of the root is rejected as `PathEscape`.
pub proof fn lemma_invocation_contained(payload: Seq<u8>, root: Seq<char>)
    ensures
        spec_build_invocation(payload, root) matches Ok(m) ==> descendant_of(m.program, root),
        valid_utf8(payload) && payload.len() > 0 && (shell_split(
            decode_utf8(payload),
        ) matches Some(words) && words.len() > 0 && path_escapes(words[0]))
            ==> spec_build_invocation(payload, root) == Err::<InvocationModel, CommandError>(
            CommandError::PathEscape,
        ),
{
    if spec_build_invocation(payload, root) is Ok {
        let words = shell_split(decode_utf8(payload)).unwrap();
        lemma_join_is_descendant(root, words[0]);
    }
}

} // verus!
