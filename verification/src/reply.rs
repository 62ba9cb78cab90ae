//! Requests that are refused, and the words in which they are.

use vstd::prelude::*;

use crate::text;
use crate::wire;

verus! {

/// What a refused request is answered: a status and a JSON text.
#[derive(Debug)]
pub struct Reply {
    pub status: u16,
    pub body: String,
}

impl Reply {
    /// The reply has that status and says that.
    pub open spec fn is(self, status: u16, body: Seq<char>) -> bool {
        self.status == status && self.body@ == body
    }
}

/// An error that names one thing.
pub open spec fn error_of(head: Seq<char>, value: Seq<char>) -> Seq<char> {
    head + wire::literal(value) + "}"@
}

fn refuse(status: u16, head: &str, value: &str) -> (r: Reply)
    ensures
        r.is(status, error_of(head@, value@)),
{
    let literal = wire::json_str(value);
    Reply { status, body: text::join3(head, literal.as_str(), "}") }
}

/// There is no such device.
pub open spec fn says_unknown_device(r: Reply, name: Seq<char>) -> bool {
    r.is(404, error_of("{\"error\":\"unknown device\",\"name\":"@, name))
}

/// The device does not do that.
pub open spec fn says_unsupported(r: Reply, name: Seq<char>) -> bool {
    r.is(404, error_of("{\"error\":\"unsupported operation\",\"name\":"@, name))
}

/// The device has no such preset.
pub open spec fn says_unknown_preset(r: Reply, name: Seq<char>, preset: Seq<char>) -> bool {
    r.is(
        404,
        "{\"error\":\"unknown preset\",\"name\":"@ + wire::literal(name) + ",\"preset\":"@
            + wire::literal(preset) + "}"@,
    )
}

/// That is no colour.
pub open spec fn says_invalid_color(r: Reply, color: Seq<char>) -> bool {
    r.is(400, error_of("{\"error\":\"invalid color\",\"color\":"@, color))
}

/// That is no brightness. What was given is repeated as it is written in JSON.
pub open spec fn says_invalid_brightness(r: Reply, written: Seq<char>) -> bool {
    r.is(400, "{\"error\":\"invalid brightness\",\"brightness\":"@ + written + "}"@)
}

/// There is no such group.
pub open spec fn says_unknown_group(r: Reply, name: Seq<char>) -> bool {
    r.is(404, error_of("{\"error\":\"unknown group\",\"name\":"@, name))
}

/// There is no such graph.
pub open spec fn says_unknown_graph(r: Reply, name: Seq<char>) -> bool {
    r.is(404, error_of("{\"error\":\"unknown graph\",\"name\":"@, name))
}

/// That is no period.
pub open spec fn says_invalid_period(r: Reply, period: Seq<char>) -> bool {
    r.is(400, error_of("{\"error\":\"invalid period\",\"period\":"@, period))
}

/// The graph could not be read.
pub open spec fn says_graph_failed(r: Reply, name: Seq<char>) -> bool {
    r.is(502, error_of("{\"error\":\"graph query failed\",\"name\":"@, name))
}

/// There is no report on health.
pub open spec fn says_no_health(r: Reply) -> bool {
    r.is(404, "{\"error\":\"health not configured\"}"@)
}

/// The report on health could not be read.
pub open spec fn says_health_failed(r: Reply) -> bool {
    r.is(502, "{\"error\":\"health query failed\"}"@)
}

/// There is no mesh.
pub open spec fn says_no_mesh(r: Reply) -> bool {
    r.is(404, "{\"error\":\"mesh not configured\"}"@)
}

/// There is no subscription.
pub open spec fn says_no_push(r: Reply) -> bool {
    r.is(404, "{\"error\":\"push not configured\"}"@)
}

/// There is no such device.
pub fn not_found(name: &str) -> (r: Reply)
    ensures
        says_unknown_device(r, name@),
{
    refuse(404, "{\"error\":\"unknown device\",\"name\":", name)
}

/// The device does not do that.
pub fn unsupported(name: &str) -> (r: Reply)
    ensures
        says_unsupported(r, name@),
{
    refuse(404, "{\"error\":\"unsupported operation\",\"name\":", name)
}

/// The device has no such preset.
pub fn unknown_preset(name: &str, preset: &str) -> (r: Reply)
    ensures
        says_unknown_preset(r, name@, preset@),
{
    let device = wire::json_str(name);
    let wanted = wire::json_str(preset);
    Reply {
        status: 404,
        body: text::join5(
            "{\"error\":\"unknown preset\",\"name\":",
            device.as_str(),
            ",\"preset\":",
            wanted.as_str(),
            "}",
        ),
    }
}

/// That is no colour.
pub fn invalid_color(color: &str) -> (r: Reply)
    ensures
        says_invalid_color(r, color@),
{
    refuse(400, "{\"error\":\"invalid color\",\"color\":", color)
}

/// That is no brightness.
pub fn invalid_brightness(written: &str) -> (r: Reply)
    ensures
        says_invalid_brightness(r, written@),
{
    Reply {
        status: 400,
        body: text::join3(
            "{\"error\":\"invalid brightness\",\"brightness\":",
            written,
            "}",
        ),
    }
}

/// There is no such group.
pub fn unknown_group(name: &str) -> (r: Reply)
    ensures
        says_unknown_group(r, name@),
{
    refuse(404, "{\"error\":\"unknown group\",\"name\":", name)
}

/// There is no such graph.
pub fn unknown_graph(name: &str) -> (r: Reply)
    ensures
        says_unknown_graph(r, name@),
{
    refuse(404, "{\"error\":\"unknown graph\",\"name\":", name)
}

/// That is no period.
pub fn invalid_period(period: &str) -> (r: Reply)
    ensures
        says_invalid_period(r, period@),
{
    refuse(400, "{\"error\":\"invalid period\",\"period\":", period)
}

/// The graph could not be read.
pub fn graph_unavailable(name: &str) -> (r: Reply)
    ensures
        says_graph_failed(r, name@),
{
    refuse(502, "{\"error\":\"graph query failed\",\"name\":", name)
}

/// There is no report on health.
pub fn health_not_configured() -> (r: Reply)
    ensures
        says_no_health(r),
{
    Reply { status: 404, body: "{\"error\":\"health not configured\"}".to_owned() }
}

/// The report on health could not be read.
pub fn health_unavailable() -> (r: Reply)
    ensures
        says_health_failed(r),
{
    Reply { status: 502, body: "{\"error\":\"health query failed\"}".to_owned() }
}

/// There is no mesh.
pub fn mesh_not_configured() -> (r: Reply)
    ensures
        says_no_mesh(r),
{
    Reply { status: 404, body: "{\"error\":\"mesh not configured\"}".to_owned() }
}

/// There is no subscription.
pub fn push_not_configured() -> (r: Reply)
    ensures
        says_no_push(r),
{
    Reply { status: 404, body: "{\"error\":\"push not configured\"}".to_owned() }
}

} // verus!
