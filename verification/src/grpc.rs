//! The gRPC benchmark service `benchmark.BenchmarkService`: sums of two
//! integers, singly, repeated, folded over a stream, and echoed per request,
//! and the management command that serves it.

use vstd::prelude::*;

verus! {

/// `SumRequest { a, b }`.
pub struct SumRequest {
    pub a: i32,
    pub b: i32,
}

/// `SumReply { result }`.
pub struct SumReply {
    pub result: i32,
}

/// `StreamRequest { a, b, count }`.
pub struct StreamRequest {
    pub a: i32,
    pub b: i32,
    pub count: i32,
}

/// The service that the handlers have injected.
#[derive(Clone, Copy)]
pub struct SumCalculator;

impl SumCalculator {
    /// `a + b`.
    pub fn sum(self, a: i32, b: i32) -> (r: i32)
        requires
            i32::MIN <= a + b <= i32::MAX,
        ensures
            r == a + b,
    {
        a + b
    }
}

/// `GetSum`: the sum of the two operands.
pub fn get_sum(calculator: SumCalculator, request: SumRequest) -> (r: SumReply)
    requires
        i32::MIN <= request.a + request.b <= i32::MAX,
    ensures
        r.result == request.a + request.b,
{
    SumReply { result: calculator.sum(request.a, request.b) }
}

/// The replies of `StreamSum`: `count` times the same reply.
pub struct StreamPlan {
    pub count: usize,
    pub reply: SumReply,
}

/// `StreamSum`: the sum of the two operands, sent `count` times (no time
/// where `count` is negative).
pub fn stream_sum(calculator: SumCalculator, request: StreamRequest) -> (r: StreamPlan)
    requires
        i32::MIN <= request.a + request.b <= i32::MAX,
    ensures
        r.count == (if request.count < 0 {
            0
        } else {
            request.count as int
        }),
        r.reply.result == request.a + request.b,
{
    let count: usize = if request.count < 0 { 0 } else { request.count as usize };
    StreamPlan { count, reply: SumReply { result: calculator.sum(request.a, request.b) } }
}

/// The reply of `CollectSum` to a stream of requests: the sum of `a + b`
/// over all of them (0 for an empty stream).
pub open spec fn stream_total(s: Seq<SumRequest>) -> int
    decreases s.len(),
{
    if s.len() == 0 {
        0
    } else {
        stream_total(s.drop_last()) + s.last().a + s.last().b
    }
}

/// Whether one more request can be added to the running total of `CollectSum`.
pub open spec fn collect_fits(total: i32, request: SumRequest) -> bool {
    &&& i32::MIN <= request.a + request.b <= i32::MAX
    &&& i32::MIN <= total + request.a + request.b <= i32::MAX
}

/// `CollectSum`, before the first request: the running total is 0, the
/// total of an empty stream.
pub fn collect_sum_start() -> (r: i32)
    ensures
        r == 0,
        r == stream_total(Seq::<SumRequest>::empty()),
{
    0
}

/// `CollectSum`, one request of the stream: the running total plus the sum
/// of its operands.
pub fn collect_sum_step(calculator: SumCalculator, total: i32, request: SumRequest) -> (r: i32)
    requires
        collect_fits(total, request),
    ensures
        r == total + request.a + request.b,
{
    total + calculator.sum(request.a, request.b)
}

/// `CollectSum`, when the stream ends: the reply carries the running total.
pub fn collect_sum_reply(total: i32) -> (r: SumReply)
    ensures
        r.result == total,
{
    SumReply { result: total }
}

/// Law: a running total that starts with `collect_sum_start` and takes
/// `collect_sum_step` for each request is the stream's total after any
/// prefix of it: one more request adds its `a + b`.
pub proof fn lemma_collect_sum_total(prefix: Seq<SumRequest>, request: SumRequest)
    ensures
        stream_total(Seq::<SumRequest>::empty()) == 0,
        stream_total(prefix.push(request)) == stream_total(prefix) + request.a + request.b,
{
    assert(prefix.push(request).drop_last() =~= prefix);
}

/// Whether every running total of `CollectSum` over `s` fits in `i32`.
pub open spec fn stream_fits(s: Seq<SumRequest>) -> bool {
    forall|i: int|
        0 <= i < s.len() ==> {
            &&& i32::MIN <= #[trigger] s[i].a + s[i].b <= i32::MAX
            &&& i32::MIN <= stream_total(s.take(i + 1)) <= i32::MAX
        }
}

/// `CollectSum` over a whole stream of requests: the reply carries the sum of
/// `a + b` over all of them, 0 for an empty stream.
pub fn collect_sum(calculator: SumCalculator, requests: &Vec<SumRequest>) -> (r: SumReply)
    requires
        stream_fits(requests@),
    ensures
        r.result == stream_total(requests@),
{
    let ghost s = requests@;
    let mut total = collect_sum_start();
    let mut i: usize = 0;
    assert(s.take(0) =~= Seq::<SumRequest>::empty());
    while i < requests.len()
        invariant
            i <= s.len(),
            s == requests@,
            total == stream_total(s.take(i as int)),
            stream_fits(s),
        decreases s.len() - i,
    {
        let a = requests[i].a;
        let b = requests[i].b;
        proof {
            assert(s.take(i + 1) =~= s.take(i as int).push(s[i as int]));
            lemma_collect_sum_total(s.take(i as int), s[i as int]);
            assert(i32::MIN <= s[i as int].a + s[i as int].b <= i32::MAX);
            assert(i32::MIN <= stream_total(s.take(i + 1)) <= i32::MAX);
        }
        total = collect_sum_step(calculator, total, SumRequest { a, b });
        i = i + 1;
    }
    assert(s.take(i as int) =~= s);
    collect_sum_reply(total)
}

/// The answer of `CollectSum` to a stream of items that may have failed:
/// the error of the first failed item, else the sum of `a + b` over the
/// requests.
pub open spec fn stream_outcome<E>(s: Seq<Result<SumRequest, E>>) -> Result<int, E>
    decreases s.len(),
{
    if s.len() == 0 {
        Ok(0)
    } else {
        match stream_outcome(s.drop_last()) {
            Err(e) => Err(e),
            Ok(t) => match s.last() {
                Ok(req) => Ok(t + req.a + req.b),
                Err(e) => Err(e),
            },
        }
    }
}

/// `CollectSum`, one item of the stream: a request adds its `a + b` to the
/// running total; a failed item ends the call with its error.
pub fn collect_sum_item<E>(calculator: SumCalculator, total: i32, item: Result<SumRequest, E>) -> (r: Result<i32, E>)
    requires
        item matches Ok(req) ==> collect_fits(total, req),
    ensures
        item matches Ok(req) ==> (r matches Ok(t) && t == total + req.a + req.b),
        item matches Err(e) ==> r == Err::<i32, E>(e),
{
    match item {
        Ok(request) => Ok(collect_sum_step(calculator, total, request)),
        Err(e) => Err(e),
    }
}

/// Law: taking `collect_sum_item` for each item from a total of 0, and
/// stopping at the first error, answers `stream_outcome`: a running total
/// after a prefix with no failed item is that prefix's outcome, and one
/// more item either adds its `a + b` or ends with its error.
pub proof fn lemma_collect_sum_outcome<E>(prefix: Seq<Result<SumRequest, E>>, total: int, item: Result<SumRequest, E>)
    requires
        stream_outcome(prefix) == Ok::<int, E>(total),
    ensures
        stream_outcome(Seq::<Result<SumRequest, E>>::empty()) == Ok::<int, E>(0),
        item matches Ok(req) ==> stream_outcome(prefix.push(item)) == Ok::<int, E>(total + req.a + req.b),
        item matches Err(e) ==> stream_outcome(prefix.push(item)) == Err::<int, E>(e),
{
    assert(prefix.push(item).drop_last() =~= prefix);
}

/// `EchoSum`, one item of the stream: the reply to a request, or the error
/// of a failed item, passed on.
pub fn echo_sum_item<E>(calculator: SumCalculator, item: Result<SumRequest, E>) -> (r: Result<SumReply, E>)
    requires
        item matches Ok(req) ==> i32::MIN <= req.a + req.b <= i32::MAX,
    ensures
        item matches Ok(req) ==> (r matches Ok(reply) && reply.result == req.a + req.b),
        item matches Err(e) ==> r == Err::<SumReply, E>(e),
{
    match item {
        Ok(request) => Ok(echo_sum(calculator, request)),
        Err(e) => Err(e),
    }
}

/// `EchoSum`, one request of the stream: its reply.
pub fn echo_sum(calculator: SumCalculator, request: SumRequest) -> (r: SumReply)
    requires
        i32::MIN <= request.a + request.b <= i32::MAX,
    ensures
        r.result == request.a + request.b,
{
    SumReply { result: calculator.sum(request.a, request.b) }
}

/// The management command `rungrpc`, which serves the benchmark service.
pub struct RunGrpcCommand;

impl RunGrpcCommand {
    pub fn name(&self) -> (r: &'static str)
        ensures
            r@ == "rungrpc"@,
    {
        "rungrpc"
    }

    pub fn description(&self) -> (r: &'static str)
        ensures
            r@ == "Runs the HttpArena gRPC benchmark server"@,
    {
        "Runs the HttpArena gRPC benchmark server"
    }

    /// The command runs without the system checks.
    pub fn requires_system_checks(&self) -> (r: bool)
        ensures
            !r,
    {
        false
    }
}

} // verus!
