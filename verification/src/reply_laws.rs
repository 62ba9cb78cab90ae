//! The words of each refusal.

use vstd::prelude::*;

use crate::reply;
use crate::reply::Reply;
use crate::wire;

verus! {

/// The reply is a status and an object whose members are an error and the one
/// thing that it is about, written as a JSON string.
pub open spec fn names_one(
    r: Reply,
    status: u16,
    error: Seq<char>,
    member: Seq<char>,
    value: Seq<char>,
) -> bool {
    &&& r.status == status
    &&& r.body@ == "{\"error\":"@ + wire::literal(error) + ",\""@ + member + "\":"@
        + wire::literal(value) + "}"@
}

/// The reply is a status and an object with an error only.
pub open spec fn names_none(r: Reply, status: u16, error: Seq<char>) -> bool {
    r.status == status && r.body@ == "{\"error\":"@ + wire::literal(error) + "}"@
}

/// A text of small letters and spaces stands in a literal as it is.
proof fn lemma_plain(s: Seq<char>)
    requires
        forall|i: int| 0 <= i < s.len() ==> (#[trigger] s[i]) == ' ' || 'a' <= s[i] <= 'z',
    ensures
        wire::escaped(s) == s,
    decreases s.len(),
{
    if s.len() > 0 {
        let front = s.drop_last();
        assert forall|i: int| 0 <= i < front.len() implies (#[trigger] front[i]) == ' ' || 'a'
            <= front[i] <= 'z' by {
            assert(front[i] == s[i]);
        }
        lemma_plain(front);
        lemma_plain_letter(s.last());
        assert(front + seq![s.last()] =~= s);
    }
}

proof fn lemma_plain_letter(c: char)
    requires
        c == ' ' || 'a' <= c <= 'z',
    ensures
        wire::escape(c) == seq![c],
{
}

/// A string in JSON: a quote, a backslash and the control characters are
/// escaped, and nothing else is.
pub proof fn lemma_escapes(c: char)
    ensures
        c == '"' ==> wire::escape(c) == seq!['\\', '"'],
        c == '\\' ==> wire::escape(c) == seq!['\\', '\\'],
        c as u32 == 8 ==> wire::escape(c) == seq!['\\', 'b'],
        c as u32 == 9 ==> wire::escape(c) == seq!['\\', 't'],
        c as u32 == 10 ==> wire::escape(c) == seq!['\\', 'n'],
        c as u32 == 12 ==> wire::escape(c) == seq!['\\', 'f'],
        c as u32 == 13 ==> wire::escape(c) == seq!['\\', 'r'],
        c as u32 >= 32 && c != '"' && c != '\\' ==> wire::escape(c) == seq![c],
        (c as u32) < 32 ==> wire::escape(c).len() > 1 && wire::escape(c)[0] == '\\',
{
}

/// What each refusal says: its status, its error, and what it is about.
pub proof fn lemma_refusals(r: Reply, value: Seq<char>)
    ensures
        reply::says_unknown_device(r, value) <==> names_one(
            r,
            404,
            "unknown device"@,
            "name"@,
            value,
        ),
        reply::says_unsupported(r, value) <==> names_one(
            r,
            404,
            "unsupported operation"@,
            "name"@,
            value,
        ),
        reply::says_invalid_color(r, value) <==> names_one(
            r,
            400,
            "invalid color"@,
            "color"@,
            value,
        ),
        reply::says_unknown_group(r, value) <==> names_one(
            r,
            404,
            "unknown group"@,
            "name"@,
            value,
        ),
        reply::says_unknown_graph(r, value) <==> names_one(
            r,
            404,
            "unknown graph"@,
            "name"@,
            value,
        ),
        reply::says_invalid_period(r, value) <==> names_one(
            r,
            400,
            "invalid period"@,
            "period"@,
            value,
        ),
        reply::says_graph_failed(r, value) <==> names_one(
            r,
            502,
            "graph query failed"@,
            "name"@,
            value,
        ),
        reply::says_no_health(r) <==> names_none(r, 404, "health not configured"@),
        reply::says_health_failed(r) <==> names_none(r, 502, "health query failed"@),
        reply::says_no_mesh(r) <==> names_none(r, 404, "mesh not configured"@),
        reply::says_no_push(r) <==> names_none(r, 404, "push not configured"@),
{
    reveal_strlit("{\"error\":");
    reveal_strlit(",\"");
    reveal_strlit("\":");
    reveal_strlit("}");
    reveal_strlit("unknown device");
    reveal_strlit("name");
    reveal_strlit("{\"error\":\"unknown device\",\"name\":");
    lemma_plain("unknown device"@);
    assert("{\"error\":\"unknown device\",\"name\":"@ =~= "{\"error\":"@ + wire::literal("unknown device"@) + ",\""@ + "name"@
        + "\":"@);
    reveal_strlit("unsupported operation");
    reveal_strlit("{\"error\":\"unsupported operation\",\"name\":");
    lemma_plain("unsupported operation"@);
    assert("{\"error\":\"unsupported operation\",\"name\":"@ =~= "{\"error\":"@ + wire::literal("unsupported operation"@) + ",\""@ + "name"@
        + "\":"@);
    reveal_strlit("invalid color");
    reveal_strlit("color");
    reveal_strlit("{\"error\":\"invalid color\",\"color\":");
    lemma_plain("invalid color"@);
    assert("{\"error\":\"invalid color\",\"color\":"@ =~= "{\"error\":"@ + wire::literal("invalid color"@) + ",\""@ + "color"@
        + "\":"@);
    reveal_strlit("unknown group");
    reveal_strlit("{\"error\":\"unknown group\",\"name\":");
    lemma_plain("unknown group"@);
    assert("{\"error\":\"unknown group\",\"name\":"@ =~= "{\"error\":"@ + wire::literal("unknown group"@) + ",\""@ + "name"@
        + "\":"@);
    reveal_strlit("unknown graph");
    reveal_strlit("{\"error\":\"unknown graph\",\"name\":");
    lemma_plain("unknown graph"@);
    assert("{\"error\":\"unknown graph\",\"name\":"@ =~= "{\"error\":"@ + wire::literal("unknown graph"@) + ",\""@ + "name"@
        + "\":"@);
    reveal_strlit("invalid period");
    reveal_strlit("period");
    reveal_strlit("{\"error\":\"invalid period\",\"period\":");
    lemma_plain("invalid period"@);
    assert("{\"error\":\"invalid period\",\"period\":"@ =~= "{\"error\":"@ + wire::literal("invalid period"@) + ",\""@ + "period"@
        + "\":"@);
    reveal_strlit("graph query failed");
    reveal_strlit("{\"error\":\"graph query failed\",\"name\":");
    lemma_plain("graph query failed"@);
    assert("{\"error\":\"graph query failed\",\"name\":"@ =~= "{\"error\":"@ + wire::literal("graph query failed"@) + ",\""@ + "name"@
        + "\":"@);
    reveal_strlit("health not configured");
    reveal_strlit("{\"error\":\"health not configured\"}");
    lemma_plain("health not configured"@);
    assert("{\"error\":\"health not configured\"}"@ =~= "{\"error\":"@ + wire::literal("health not configured"@) + "}"@);
    reveal_strlit("health query failed");
    reveal_strlit("{\"error\":\"health query failed\"}");
    lemma_plain("health query failed"@);
    assert("{\"error\":\"health query failed\"}"@ =~= "{\"error\":"@ + wire::literal("health query failed"@) + "}"@);
    reveal_strlit("mesh not configured");
    reveal_strlit("{\"error\":\"mesh not configured\"}");
    lemma_plain("mesh not configured"@);
    assert("{\"error\":\"mesh not configured\"}"@ =~= "{\"error\":"@ + wire::literal("mesh not configured"@) + "}"@);
    reveal_strlit("push not configured");
    reveal_strlit("{\"error\":\"push not configured\"}");
    lemma_plain("push not configured"@);
    assert("{\"error\":\"push not configured\"}"@ =~= "{\"error\":"@ + wire::literal("push not configured"@) + "}"@);
}

/// What the two other refusals say: an unknown preset names the device and the
/// preset, and an invalid brightness repeats what was given as it was written.
pub proof fn lemma_other_refusals(
    r: Reply,
    name: Seq<char>,
    preset: Seq<char>,
    written: Seq<char>,
)
    ensures
        reply::says_unknown_preset(r, name, preset) <==> r.status == 404 && r.body@
            == "{\"error\":\"unknown preset\",\"name\":"@ + wire::literal(name)
            + ",\"preset\":"@ + wire::literal(preset) + "}"@,
        reply::says_invalid_brightness(r, written) <==> r.status == 400 && r.body@
            == "{\"error\":\"invalid brightness\",\"brightness\":"@ + written + "}"@,
{
}

} // verus!
