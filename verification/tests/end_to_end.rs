use std::sync::Arc;

use tokio::io::{duplex, AsyncReadExt, AsyncWriteExt, DuplexStream};
use tokio::sync::RwLock;

use stp_home::codec::{decode_payload, encode_frame, u32_from_be_bytes};
use stp_home::handshake::{client_handshake, client_hello, server_handshake};
use stp_home::request_handler::{
    device_list, get_device, parse_command, respond, room_list, update_device, Command, Request,
};
use stp_home::smart_home::Home;

async fn send_frame(stream: &mut DuplexStream, text: &str) {
    let frame = encode_frame(text);
    stream.write_all(&frame).await.unwrap();
}

async fn recv_frame(stream: &mut DuplexStream) -> Option<String> {
    let mut header = [0u8; 4];
    if stream.read_exact(&mut header).await.is_err() {
        return None;
    }
    let len = u32_from_be_bytes(&header) as usize;
    let mut payload = vec![0u8; len];
    if stream.read_exact(&mut payload).await.is_err() {
        return None;
    }
    Some(decode_payload(payload).unwrap())
}

/// The server side of one connection: handshake, then one response per
/// request until the peer hangs up.
async fn serve_connection(mut stream: DuplexStream, home: Arc<RwLock<Home>>) {
    let mut hello = [0u8; 4];
    if stream.read_exact(&mut hello).await.is_err() {
        return;
    }
    let reply = match server_handshake(&hello) {
        Ok(reply) => reply,
        // A failed handshake discards only this connection.
        Err(_) => return,
    };
    if stream.write_all(&reply).await.is_err() {
        return;
    }
    loop {
        let raw = match recv_frame(&mut stream).await {
            Some(raw) => raw,
            None => return,
        };
        let mut req = Request::new(&raw);
        let response = match parse_command(&mut req) {
            Command::RoomList => room_list(&*home.read().await),
            Command::DeviceList { room } => device_list(&*home.read().await, &room),
            Command::GetDevice { room, device } => get_device(&*home.read().await, &room, &device),
            Command::UpdateDevice { room, device } => {
                update_device(&mut *home.write().await, &room, &device, &mut req)
            },
            Command::Bad => {
                let mut fresh = Request::new(&raw);
                respond(&mut *home.write().await, &mut fresh)
            },
        };
        send_frame(&mut stream, &response).await;
    }
}

/// One fresh connection to the shared registry, served by its own task.
fn open_connection(home: &Arc<RwLock<Home>>) -> DuplexStream {
    let (client_side, server_side) = duplex(4096);
    tokio::spawn(serve_connection(server_side, Arc::clone(home)));
    client_side
}

async fn connect(home: &Arc<RwLock<Home>>) -> DuplexStream {
    let mut stream = open_connection(home);
    stream.write_all(&client_hello()).await.unwrap();
    let mut reply = [0u8; 4];
    stream.read_exact(&mut reply).await.unwrap();
    client_handshake(&reply).unwrap();
    stream
}

async fn request(stream: &mut DuplexStream, text: &str) -> String {
    send_frame(stream, text).await;
    recv_frame(stream).await.unwrap()
}

fn runtime() -> tokio::runtime::Runtime {
    tokio::runtime::Builder::new_multi_thread()
        .worker_threads(2)
        .enable_all()
        .build()
        .unwrap()
}

#[test]
fn end_to_end_scenario() {
    let rt = runtime();
    rt.block_on(async {
        let home = Arc::new(RwLock::new(Home::restore()));
        let mut client = connect(&home).await;
        assert_eq!("Ok///socket///off///0///220", request(&mut client, "get device///R///S").await);
        assert_eq!(
            "Ok",
            request(&mut client, "update device///R///S///socket///on///5.5///220").await
        );
        assert_eq!("Ok///socket///on///5.5///220", request(&mut client, "get device///R///S").await);
        assert_eq!(
            "Err///Room 'NoSuchRoom' not found.",
            request(&mut client, "device list///NoSuchRoom").await
        );
        assert_eq!("Err///Bad command", request(&mut client, "frobnicate").await);
    });
}

#[test]
fn server_survives_a_bad_handshake() {
    let rt = runtime();
    rt.block_on(async {
        let home = Arc::new(RwLock::new(Home::restore()));

        let mut rogue = open_connection(&home);
        rogue.write_all(b"nope").await.unwrap();
        let mut reply = [0u8; 4];
        assert!(rogue.read_exact(&mut reply).await.is_err());

        let mut client = connect(&home).await;
        assert_eq!("Ok///R", request(&mut client, "room list").await);
    });
}

#[test]
fn concurrent_readers_see_whole_states() {
    let rt = runtime();
    rt.block_on(async {
        let home = Arc::new(RwLock::new(Home::restore()));

        let writer_home = Arc::clone(&home);
        let writer = tokio::spawn(async move {
            let mut client = connect(&writer_home).await;
            for round in 0..40 {
                let text = if round % 2 == 0 {
                    "update device///R///S///socket///on///5///110"
                } else {
                    "update device///R///S///socket///off///0///220"
                };
                assert_eq!("Ok", request(&mut client, text).await);
            }
        });
        let mut readers = Vec::new();
        for _ in 0..4 {
            let reader_home = Arc::clone(&home);
            readers.push(tokio::spawn(async move {
                let mut client = connect(&reader_home).await;
                for _ in 0..40 {
                    let seen = request(&mut client, "get device///R///S").await;
                    assert!(
                        seen == "Ok///socket///off///0///220"
                            || seen == "Ok///socket///on///5///110",
                        "torn device state: {}",
                        seen
                    );
                    assert_eq!("Ok///R", request(&mut client, "room list").await);
                    assert_eq!("Ok///S///T", request(&mut client, "device list///R").await);
                }
            }));
        }
        writer.await.unwrap();
        for reader in readers {
            reader.await.unwrap();
        }
    });
}
