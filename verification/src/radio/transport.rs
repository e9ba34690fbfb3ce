//! The adaptation of legacy `ICY 200 OK` status lines: the first four bytes of a
//! response are held back, and `ICY ` is handed on as `HTTP/1.0 `.
use vstd::prelude::*;

verus! {

/// The bytes of `ICY `.
pub open spec fn icy_prefix() -> Seq<u8> {
    seq![73u8, 67u8, 89u8, 32u8]
}

/// The bytes of `HTTP/1.0 `.
pub open spec fn http10_prefix() -> Seq<u8> {
    seq![72u8, 84u8, 84u8, 80u8, 47u8, 49u8, 46u8, 48u8, 32u8]
}

/// What the first four bytes of a response are handed on as.
pub open spec fn rewrite_prefix(p: Seq<u8>) -> Seq<u8> {
    if p == icy_prefix() {
        http10_prefix()
    } else {
        p
    }
}

/// The status-line adapter of one response.
#[derive(Debug)]
pub struct StatusLine {
    prefix: Vec<u8>,
    started: bool,
}

impl View for StatusLine {
    type V = (Seq<u8>, bool);

    closed spec fn view(&self) -> (Seq<u8>, bool) {
        (self.prefix@, self.started)
    }
}

impl StatusLine {
    /// An adapter that has seen no byte.
    pub fn new() -> (r: StatusLine)
        ensures
            r@.0.len() == 0,
            !r@.1,
    {
        StatusLine { prefix: Vec::new(), started: false }
    }

    /// Whether the first four bytes were handed on; from then on input passes unchanged.
    pub fn started(&self) -> (r: bool)
        ensures
            r == self@.1,
    {
        self.started
    }

    /// Takes as many bytes of `input` as the first four still lack. Returns how many were
    /// taken and, once four are in, what to hand on in their place: `HTTP/1.0 ` for
    /// `ICY `, else the four bytes themselves.
    pub fn take(&mut self, input: &[u8]) -> (r: (usize, Option<Vec<u8>>))
        requires
            !old(self)@.1,
            old(self)@.0.len() < 4,
        ensures
            ({
                let n = if 4 - old(self)@.0.len() < input@.len() {
                    4 - old(self)@.0.len()
                } else {
                    input@.len() as int
                };
                &&& r.0 == n
                &&& final(self)@.0 == old(self)@.0 + input@.subrange(0, n)
                &&& final(self)@.0.len() < 4 ==> r.1 is None && !final(self)@.1
                &&& final(self)@.0.len() == 4 ==> final(self)@.1 && (r.1 matches Some(out) && out@
                    == rewrite_prefix(final(self)@.0))
            }),
    {
        let missing = 4 - self.prefix.len();
        let n = if missing < input.len() {
            missing
        } else {
            input.len()
        };
        let ghost before = self.prefix@;
        let mut i: usize = 0;
        while i < n
            invariant
                i <= n,
                n <= input@.len(),
                self.prefix@ == before + input@.subrange(0, i as int),
                !self.started,
            decreases n - i,
        {
            self.prefix.push(input[i]);
            assert(input@.subrange(0, i + 1) =~= input@.subrange(0, i as int).push(input@[i as int]));
            i = i + 1;
        }
        if self.prefix.len() < 4 {
            return (n, None);
        }
        self.started = true;
        let p = &self.prefix;
        if p[0] == 73u8 && p[1] == 67u8 && p[2] == 89u8 && p[3] == 32u8 {
            assert(self.prefix@ =~= icy_prefix());
            let out: Vec<u8> = vec![72u8, 84u8, 84u8, 80u8, 47u8, 49u8, 46u8, 48u8, 32u8];
            assert(out@ =~= http10_prefix());
            (n, Some(out))
        } else {
            assert(self.prefix@ != icy_prefix()) by {
                if self.prefix@ == icy_prefix() {
                    assert(self.prefix@[0] == 73u8);
                }
            }
            let mut out: Vec<u8> = Vec::new();
            out.push(p[0]);
            out.push(p[1]);
            out.push(p[2]);
            out.push(p[3]);
            assert(out@ =~= self.prefix@);
            (n, Some(out))
        }
    }
}

} // verus!
