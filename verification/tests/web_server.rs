use std::cell::RefCell;
use std::rc::Rc;
use workbench::web_server::http::{default_address, Page, BUFFER_SIZE, WORKERS};
use workbench::web_server::pool::{Step, ThreadPool, ThreadState};

#[test]
fn a_request_for_the_root_gets_the_index_page() {
    let request = b"GET / HTTP/1.1\r\nHost: localhost\r\n\r\n";
    let page = Page::select(request);
    assert_eq!(page, Page::Index);
    assert_eq!(page.status_line(), "HTTP/1.1 200 OK\r\n\r\n");
    assert_eq!(page.filename(), "index.html");
}

#[test]
fn any_other_request_gets_the_not_found_page() {
    for request in [
        &b"GET /something-else HTTP/1.1\r\n\r\n"[..],
        &b"POST / HTTP/1.1\r\n\r\n"[..],
        &b"GET / HTTP/1.0\r\n\r\n"[..],
        &b"GET / HTTP/1.1\n"[..],
        &b"GET / HTTP/1.1\r"[..],
        &b"get / http/1.1\r\n"[..],
        &b" GET / HTTP/1.1\r\n"[..],
        &b""[..],
    ] {
        let page = Page::select(request);
        assert_eq!(page, Page::NotFound);
        assert_eq!(page.status_line(), "HTTP/1.1 404 NOT FOUND\r\n\r\n");
        assert_eq!(page.filename(), "404.html");
    }
}

#[test]
fn the_request_line_alone_is_enough() {
    assert_eq!(Page::select(b"GET / HTTP/1.1\r\n"), Page::Index);
    assert_eq!(b"GET / HTTP/1.1\r\n".len(), 16);
}

#[test]
fn a_full_buffer_is_judged_by_its_first_bytes() {
    let mut buffer = [0u8; BUFFER_SIZE];
    assert_eq!(Page::select(&buffer), Page::NotFound);
    buffer[..16].copy_from_slice(b"GET / HTTP/1.1\r\n");
    assert_eq!(Page::select(&buffer), Page::Index);
    buffer[15] = b'\r';
    assert_eq!(Page::select(&buffer), Page::NotFound);
}

#[test]
fn the_response_is_the_status_line_and_the_file() {
    assert_eq!(
        Page::Index.response("<h1>Hello!</h1>\n"),
        "HTTP/1.1 200 OK\r\n\r\n<h1>Hello!</h1>\n"
    );
    assert_eq!(
        Page::NotFound.response("<h1>Oops!</h1>"),
        "HTTP/1.1 404 NOT FOUND\r\n\r\n<h1>Oops!</h1>"
    );
    assert_eq!(Page::Index.response(""), "HTTP/1.1 200 OK\r\n\r\n");
}

#[test]
fn the_server_has_its_defaults() {
    assert_eq!(default_address(), "127.0.0.1:7878");
    assert_eq!(WORKERS, 4);
    assert_eq!(BUFFER_SIZE, 1024);
}

#[test]
fn http_collaborator_happy_path() {
    let index = "<!DOCTYPE html>\n<h1>Hello!</h1>\n";
    let answers = Rc::new(RefCell::new(Vec::new()));
    let mut pool: ThreadPool<Box<dyn FnOnce()>> = ThreadPool::new(WORKERS);
    for _ in 0..8 {
        let answers = Rc::clone(&answers);
        pool.execute(Box::new(move || {
            let mut buffer = [0u8; BUFFER_SIZE];
            let request = b"GET / HTTP/1.1\r\n\r\n";
            buffer[..request.len()].copy_from_slice(request);
            let page = Page::select(&buffer);
            assert_eq!(page.filename(), "index.html");
            answers.borrow_mut().push(page.response(index));
        }));
    }
    // four connections are served at a time, twice
    for round in 0..2 {
        let mut in_flight = Vec::new();
        for id in 0..WORKERS {
            match pool.claim(id) {
                Step::Run(job) => in_flight.push(job),
                _ => panic!("round {}: worker {} has no connection", round, id),
            }
        }
        for id in 0..WORKERS {
            assert_eq!(pool.thread(id), Some(ThreadState::Running));
        }
        for (id, job) in in_flight.into_iter().enumerate() {
            job();
            pool.finish(id);
        }
    }
    assert_eq!(pool.pending(), 0);
    pool.terminate_all();
    for id in 0..WORKERS {
        assert!(matches!(pool.claim(id), Step::Exit));
        assert!(pool.join(id));
    }
    let answers = answers.borrow();
    assert_eq!(answers.len(), 8);
    for answer in answers.iter() {
        assert_eq!(answer, &format!("HTTP/1.1 200 OK\r\n\r\n{}", index));
    }
}
