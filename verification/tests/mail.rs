use qrkit::{Participant, Participants};

#[test]
fn convert_string_to_participant() {
    let email = "me@acme.com".to_owned();
    let expected = Participant {
        email,
        name: String::new(),
    };
    let participant: Participant = "me@acme.com".into();
    assert_eq!(expected, participant);
}

#[test]
fn convert_vec_string_to_participant() {
    let emails = vec!["me@acme.com", "you@acme.com"];
    let expected = vec![
        Participant {
            email: emails[0].to_owned(),
            name: String::new(),
        },
        Participant {
            email: emails[1].to_owned(),
            name: String::new(),
        },
    ];
    let participant: Participants = emails.into();
    assert_eq!(Participants(expected), participant);
}
