use rbridge::connection::{Connection, Frame};
use rbridge::gesture::{Gesture, GestureShape};
use rbridge::host::{get_host, host_with_port};
use rbridge::message::ClientMessage;

#[test]
fn without_an_override_the_server_listens_on_every_interface() {
    assert_eq!(get_host(None), "0.0.0.0:7321");
}

#[test]
fn only_the_port_of_an_override_counts() {
    assert_eq!(get_host(Some("http://example.com:8080")), "127.0.0.1:8080");
    assert_eq!(get_host(Some("ws://10.0.0.7:9/path?x=1")), "127.0.0.1:9");
    assert_eq!(get_host(Some("tcp://localhost:65535")), "127.0.0.1:65535");
}

#[test]
fn an_override_without_a_port_is_ignored() {
    assert_eq!(get_host(Some("http://example.com")), "0.0.0.0:7321");
    assert_eq!(get_host(Some("http://example.com:80/")), "0.0.0.0:7321");
    assert_eq!(get_host(Some("not a url")), "0.0.0.0:7321");
    assert_eq!(get_host(Some("")), "0.0.0.0:7321");
    assert_eq!(get_host(Some("8080")), "0.0.0.0:7321");
}

#[test]
fn ports_are_written_in_decimal() {
    assert_eq!(host_with_port(Some(0)), "127.0.0.1:0");
    assert_eq!(host_with_port(Some(7)), "127.0.0.1:7");
    assert_eq!(host_with_port(Some(10)), "127.0.0.1:10");
    assert_eq!(host_with_port(Some(7321)), "127.0.0.1:7321");
    assert_eq!(host_with_port(Some(40905)), "127.0.0.1:40905");
    assert_eq!(host_with_port(Some(65535)), "127.0.0.1:65535");
    assert_eq!(host_with_port(None), "0.0.0.0:7321");
}

#[test]
fn binary_frames_are_dropped_until_the_client_is_authenticated() {
    let mut connection = Connection::new();
    assert!(!connection.is_authenticated());
    assert_eq!(connection.receive(&Frame::Binary(vec![1, 5])), None);
    assert_eq!(connection.receive(&Frame::Text("wrong".to_string())), None);
    assert_eq!(connection.receive(&Frame::Other), None);
    assert!(!connection.is_authenticated());
    assert_eq!(connection.receive(&Frame::Binary(vec![1, 5])), None);
    assert_eq!(connection.receive(&Frame::Text("random_password".to_string())), None);
    assert!(connection.is_authenticated());
    assert_eq!(connection.receive(&Frame::Binary(vec![1, 5])), Some(ClientMessage::Braille(5)));
    assert_eq!(
        connection.receive(&Frame::Binary(vec![0, 1, 0, 50, 50, 1])),
        Some(ClientMessage::Gesture(Gesture::new(1, 0, 50, 50, GestureShape::Tap)))
    );
}

#[test]
fn malformed_frames_are_dropped_and_the_connection_goes_on() {
    let mut connection = Connection::new();
    connection.receive(&Frame::Text("random_password".to_string()));
    assert_eq!(connection.receive(&Frame::Binary(vec![])), None);
    assert_eq!(connection.receive(&Frame::Binary(vec![7, 7])), None);
    assert_eq!(connection.receive(&Frame::Text("wrong".to_string())), None);
    assert_eq!(connection.receive(&Frame::Other), None);
    assert!(connection.is_authenticated());
    assert_eq!(connection.receive(&Frame::Binary(vec![1, 0])), Some(ClientMessage::Braille(0)));
}
