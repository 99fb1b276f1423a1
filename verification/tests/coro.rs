use crimes::{
    AsCoro, Coro, CoroState, Generator, Handle, Poll, ReadyCoro, Resumable, SharedState, Yield,
};
use std::io::{self, Cursor, ErrorKind, Read};

// A body that yields 42, expects `true` back and then returns a greeting.
struct YieldRecvReturn {
    y: Yield<usize, bool>,
}

impl Resumable<usize, bool, &'static str> for YieldRecvReturn {
    fn poll(&mut self, cx: &mut SharedState<usize, bool>) -> Poll<&'static str> {
        match self.y.poll(cx) {
            Poll::Pending => Poll::Pending,
            Poll::Ready(b) => {
                assert!(b);
                Poll::Ready("hello, world!")
            }
        }
    }
}

fn yield_recv_return() -> ReadyCoro<bool, &'static str, YieldRecvReturn, usize> {
    Coro::from(|handle: Handle<usize, bool>| YieldRecvReturn {
        y: handle.yield_value(42),
    })
}

#[test]
fn yield_recv_return_works() {
    let mut coro = yield_recv_return();
    coro = coro.resume().unwrap_pending(|n| {
        assert_eq!(n, 42);
        true
    });

    let s = coro.resume().unwrap();
    assert_eq!(s, "hello, world!");
}

// This is pretty contrived but worthwhile validating that chaining the unwrap and
// unwrap_pending methods works fine
#[test]
fn coro_state_chaining_works() {
    let s = yield_recv_return()
        .resume()
        .unwrap_pending(|n| {
            assert_eq!(n, 42);
            true
        })
        .resume()
        .unwrap();

    assert_eq!(s, "hello, world!");
}

// For each number in turn: yield it, expect its double back.
struct DoubleNums<'a> {
    handle: Handle<usize, usize>,
    nums: &'a [usize],
    i: usize,
    cur: Option<Yield<usize, usize>>,
}

impl<'a> Resumable<usize, usize, &'static str> for DoubleNums<'a> {
    fn poll(&mut self, cx: &mut SharedState<usize, usize>) -> Poll<&'static str> {
        loop {
            if let Some(y) = self.cur.as_mut() {
                match y.poll(cx) {
                    Poll::Pending => return Poll::Pending,
                    Poll::Ready(doubled) => {
                        assert_eq!(doubled, self.nums[self.i] * 2);
                        self.i += 1;
                        self.cur = None;
                    }
                }
            }
            if self.i < self.nums.len() {
                self.cur = Some(self.handle.yield_value(self.nums[self.i]));
            } else {
                return Poll::Ready("done");
            }
        }
    }
}

fn double_nums(nums: &[usize]) -> ReadyCoro<usize, &'static str, DoubleNums<'_>, usize> {
    Coro::from(|handle: Handle<usize, usize>| DoubleNums {
        handle,
        nums,
        i: 0,
        cur: None,
    })
}

#[test]
fn closures_capturing_references_work() {
    let mut coro = double_nums(&[1, 2, 3]);
    loop {
        coro = match coro.resume() {
            CoroState::Pending(c, n) => c.send(n * 2),
            CoroState::Complete(res) => {
                assert_eq!(res, "done");
                return;
            }
        };
    }
}

#[test]
fn run_sync_works() {
    let res = double_nums(&[1, 2, 3]).run_sync(|n| n * 2);
    assert_eq!(res, "done");
}

// ["Hello", "世界"] in 9p wire format.
const HELLO_WORLD: [u8; 17] = [
    0x02, 0x00, 0x05, 0x00, 0x48, 0x65, 0x6c, 0x6c, 0x6f, 0x06, 0x00, 0xe4, 0xb8, 0x96, 0xe7,
    0x95, 0x8c,
];

// Requests two bytes and decodes them as a little-endian u16.
struct Read9pU16 {
    y: Yield<usize, Vec<u8>>,
}

impl Resumable<usize, Vec<u8>, io::Result<u16>> for Read9pU16 {
    fn poll(&mut self, cx: &mut SharedState<usize, Vec<u8>>) -> Poll<io::Result<u16>> {
        match self.y.poll(cx) {
            Poll::Pending => Poll::Pending,
            Poll::Ready(buf) => {
                let n = size_of::<u16>();
                let data = buf[0..n].try_into().unwrap();
                Poll::Ready(Ok(u16::from_le_bytes(data)))
            }
        }
    }
}

fn read_9p_u16(handle: Handle<usize, Vec<u8>>) -> Read9pU16 {
    Read9pU16 {
        y: handle.yield_value(size_of::<u16>()),
    }
}

// Reads a u16 length and then that many bytes of UTF-8.
enum Read9pString {
    Len(Handle<usize, Vec<u8>>, Read9pU16),
    Data(Yield<usize, Vec<u8>>),
}

impl Resumable<usize, Vec<u8>, io::Result<String>> for Read9pString {
    fn poll(&mut self, cx: &mut SharedState<usize, Vec<u8>>) -> Poll<io::Result<String>> {
        loop {
            match self {
                Read9pString::Len(handle, len) => match len.poll(cx) {
                    Poll::Pending => return Poll::Pending,
                    Poll::Ready(Err(e)) => return Poll::Ready(Err(e)),
                    Poll::Ready(Ok(n)) => {
                        let y = handle.yield_value(n as usize);
                        *self = Read9pString::Data(y);
                    }
                },
                Read9pString::Data(y) => {
                    return match y.poll(cx) {
                        Poll::Pending => Poll::Pending,
                        Poll::Ready(buf) => Poll::Ready(
                            String::from_utf8(buf)
                                .map_err(|e| io::Error::new(ErrorKind::InvalidData, e.to_string())),
                        ),
                    };
                }
            }
        }
    }
}

fn read_9p_string(handle: Handle<usize, Vec<u8>>) -> Read9pString {
    let len = handle.yield_from(read_9p_u16);
    Read9pString::Len(handle, len)
}

// Reads a u16 count and then that many strings.
enum Read9pStringVec {
    Len(Handle<usize, Vec<u8>>, Read9pU16),
    Items(Handle<usize, Vec<u8>>, usize, Vec<String>, Read9pString),
}

impl Resumable<usize, Vec<u8>, io::Result<Vec<String>>> for Read9pStringVec {
    fn poll(&mut self, cx: &mut SharedState<usize, Vec<u8>>) -> Poll<io::Result<Vec<String>>> {
        loop {
            match self {
                Read9pStringVec::Len(handle, len) => match len.poll(cx) {
                    Poll::Pending => return Poll::Pending,
                    Poll::Ready(Err(e)) => return Poll::Ready(Err(e)),
                    Poll::Ready(Ok(n)) => {
                        let n = n as usize;
                        if n == 0 {
                            return Poll::Ready(Ok(Vec::new()));
                        }
                        let handle = *handle;
                        let item = handle.yield_from(read_9p_string);
                        *self = Read9pStringVec::Items(handle, n, Vec::with_capacity(n), item);
                    }
                },
                Read9pStringVec::Items(handle, n, buf, item) => match item.poll(cx) {
                    Poll::Pending => return Poll::Pending,
                    Poll::Ready(Err(e)) => return Poll::Ready(Err(e)),
                    Poll::Ready(Ok(s)) => {
                        buf.push(s);
                        if buf.len() == *n {
                            return Poll::Ready(Ok(std::mem::take(buf)));
                        }
                        *item = handle.yield_from(read_9p_string);
                    }
                },
            }
        }
    }
}

fn read_9p_string_vec(handle: Handle<usize, Vec<u8>>) -> Read9pStringVec {
    let len = handle.yield_from(read_9p_u16);
    Read9pStringVec::Len(handle, len)
}

#[test]
fn run_sync_works_with_nested_yields() {
    let mut r = Cursor::new(HELLO_WORLD.to_vec());
    let parsed = Coro::from(read_9p_string_vec)
        .run_sync(|n| {
            let mut buf = vec![0; n];
            r.read_exact(&mut buf).unwrap();
            buf
        })
        .expect("parsing to be successful");

    assert_eq!(parsed, &["Hello", "世界"]);
}

#[test]
fn nested_yields_request_lengths_in_order() {
    let mut requested = Vec::new();
    let mut r = Cursor::new(HELLO_WORLD.to_vec());
    let mut coro = Coro::from(read_9p_string_vec);
    let parsed = loop {
        coro = match coro.resume() {
            CoroState::Complete(parsed) => break parsed.unwrap(),
            CoroState::Pending(c, n) => {
                requested.push(n);
                let mut buf = vec![0; n];
                r.read_exact(&mut buf).unwrap();
                c.send(buf)
            }
        };
    };

    assert_eq!(parsed, &["Hello", "世界"]);
    assert_eq!(requested, vec![2, 2, 5, 2, 6]);
}

#[test]
fn invalid_utf8_is_reported() {
    let bytes = vec![0x02, 0x00, 0xff, 0xfe];
    let mut r = Cursor::new(bytes);
    let res = Coro::from(read_9p_string).run_sync(|n| {
        let mut buf = vec![0; n];
        r.read_exact(&mut buf).unwrap();
        buf
    });

    assert_eq!(res.unwrap_err().kind(), ErrorKind::InvalidData);
}

// Using const generics to implement a counter generator
struct Counter<const N: usize>;

struct CountTo {
    handle: Handle<usize>,
    k: usize,
    n: usize,
    cur: Option<Yield<usize, ()>>,
}

impl Resumable<usize, (), ()> for CountTo {
    fn poll(&mut self, cx: &mut SharedState<usize, ()>) -> Poll<()> {
        loop {
            if let Some(y) = self.cur.as_mut() {
                match y.poll(cx) {
                    Poll::Pending => return Poll::Pending,
                    Poll::Ready(()) => self.cur = None,
                }
            }
            if self.n < self.k {
                self.cur = Some(self.handle.yield_value(self.n));
                self.n += 1;
            } else {
                return Poll::Ready(());
            }
        }
    }
}

impl<const N: usize> AsCoro for Counter<N> {
    type Snd = usize;
    type Rcv = ();
    type Out = ();
    type Fut = CountTo;

    fn as_coro_fn(handle: Handle<usize>) -> CountTo {
        CountTo {
            handle,
            k: N,
            n: 0,
            cur: None,
        }
    }
}

#[test]
fn generator_iter_works() {
    let nums: Vec<usize> = Counter::<6>::as_coro().collect();
    assert_eq!(nums, vec![0, 1, 2, 3, 4, 5]);
}

#[test]
fn empty_generator_yields_nothing() {
    let nums: Vec<usize> = Counter::<0>::as_coro().collect();
    assert!(nums.is_empty());
}

#[test]
fn yield_from_type_works() {
    let coro = Coro::from(|handle: Handle<usize>| handle.yield_from_type::<Counter<6>, _>());
    let total: usize = coro.collect().into_iter().sum();

    assert_eq!(total, 1 + 2 + 3 + 4 + 5);
}

#[test]
fn capturing_nested_closure_works() {
    let g = |k: usize| {
        Generator::from(move |handle: Handle<usize>| CountTo {
            handle,
            k,
            n: 0,
            cur: None,
        })
    };

    let nums: Vec<usize> = g(6).collect();
    assert_eq!(nums, vec![0, 1, 2, 3, 4, 5]);
}
