use crimes::{Coro, CoroState, Handle, Poll, ReadyCoro, Resumable, SharedState, Yield};

// Yields "ping" and expects "pong" back.
struct PingPong {
    y: Yield<&'static str, &'static str>,
}

impl Resumable<&'static str, &'static str, ()> for PingPong {
    fn poll(&mut self, cx: &mut SharedState<&'static str, &'static str>) -> Poll<()> {
        match self.y.poll(cx) {
            Poll::Pending => Poll::Pending,
            Poll::Ready(reply) => {
                assert_eq!("pong", reply);
                Poll::Ready(())
            }
        }
    }
}

#[test]
fn coro_from_closure_works() {
    let mut coro = Coro::from(|handle: Handle<&'static str, &'static str>| PingPong {
        y: handle.yield_value("ping"),
    });

    coro = match coro.resume() {
        CoroState::Pending(c, ping) => {
            assert_eq!(ping, "ping");
            c.send("pong")
        }
        CoroState::Complete(()) => panic!("expected pending"),
    };

    match coro.resume() {
        CoroState::Pending(_, _) => panic!("expected complete"),
        CoroState::Complete(()) => (),
    };
}

// For each number in turn: yield it, expect its double back.
struct Doubler<'a> {
    handle: Handle<usize, usize>,
    nums: &'a [usize],
    i: usize,
    cur: Option<Yield<usize, usize>>,
}

impl<'a> Resumable<usize, usize, &'static str> for Doubler<'a> {
    fn poll(&mut self, cx: &mut SharedState<usize, usize>) -> Poll<&'static str> {
        loop {
            if let Some(y) = self.cur.as_mut() {
                match y.poll(cx) {
                    Poll::Pending => return Poll::Pending,
                    Poll::Ready(doubled) => {
                        assert_eq!(doubled, self.nums[self.i] * 2);
                        self.i += 1;
                        self.cur = None;
                    }
                }
            }
            if self.i < self.nums.len() {
                self.cur = Some(self.handle.yield_value(self.nums[self.i]));
            } else {
                return Poll::Ready("done");
            }
        }
    }
}

#[test]
fn closures_capturing_referece_work() {
    fn double_nums(nums: &[usize]) -> ReadyCoro<usize, &'static str, Doubler<'_>, usize> {
        Coro::from(|handle: Handle<usize, usize>| Doubler {
            handle,
            nums,
            i: 0,
            cur: None,
        })
    }

    let mut coro = double_nums(&[1, 2, 3]);
    loop {
        coro = {
            match coro.resume() {
                CoroState::Pending(c, n) => c.send(n * 2),
                CoroState::Complete(res) => {
                    assert_eq!(res, "done");
                    return;
                }
            }
        };
    }
}
