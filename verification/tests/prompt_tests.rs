use trunk_core::input::{Input, InputType};
use trunk_core::prompt::{PromptResponses, ResponseRegistry};
use trunk_core::prompt::{Prompt, PromptCollection, PromptParser, PromptResponse};

fn prompts() -> Vec<Prompt> {
    vec![
        Prompt {
            template: "greeting".into(),
            question: "how do we greet each other in computers?".into(),
            input_type: InputType::String,
        },
        Prompt {
            template: "shoesize".into(),
            question: "what is your shoe size?".into(),
            input_type: InputType::Integer,
        },
        Prompt {
            template: "file".into(),
            question: "Give me the name of your favorite file".into(),
            input_type: InputType::String,
        },
    ]
}

#[test]
fn prompt_responding() {
    let parser = PromptParser(PromptCollection(prompts()));
    assert!(parser
        .template("?greeting?".into(), &Default::default())
        .is_err());
    assert!(parser
        .template(
            "?greeting?".into(),
            &(vec![PromptResponse {
                template: "not-greeting".into(),
                input: Input::Integer(20)
            }]
            .into()),
        )
        .is_err());
    assert!(parser
        .template(
            "?greeting?".into(),
            &(vec![PromptResponse {
                template: "greeting".into(),
                input: Input::String("hello, world!".into())
            }]
            .into())
        )
        .is_ok());

    assert!(parser
        .template(
            "?greeting?".into(),
            &(vec![
                PromptResponse {
                    template: "greeting".into(),
                    input: Input::String("hello, world!".into())
                },
                PromptResponse {
                    template: "not-greeting".into(),
                    input: Input::String("hello, world!".into())
                },
            ]
            .into()),
        )
        .is_ok());

    assert_eq!(
        parser
            .template(
                "?greeting?".into(),
                &(vec![PromptResponse {
                    template: "greeting".into(),
                    input: Input::String("hello, world!".into())
                }]
                .into())
            )
            .unwrap(),
        "hello, world!"
    );

    assert_eq!(
        parser
            .template(
                "?greeting? ?shoesize?".into(),
                &(vec![
                    PromptResponse {
                        template: "greeting".into(),
                        input: Input::String("hello, world!".into())
                    },
                    PromptResponse {
                        template: "shoesize".into(),
                        input: Input::Integer(20),
                    }
                ]
                .into())
            )
            .unwrap(),
        "hello, world! 20"
    );

    assert!(parser
        .template("?greeting".into(), &Default::default())
        .is_ok());
    assert_eq!(
        parser
            .template("?greeting".into(), &Default::default())
            .unwrap(),
        "?greeting"
    );
    assert!(parser.template("?".into(), &Default::default()).is_ok());
    assert_eq!(parser.template("?".into(), &Default::default()).unwrap(), "?");
    assert!(parser.template("??".into(), &Default::default()).is_ok());
    assert_eq!(
        parser.template("??".into(), &Default::default()).unwrap(),
        "?"
    );
    assert_eq!(
        parser
            .template("why so serious?".into(), &Default::default())
            .unwrap(),
        "why so serious?"
    );
    assert_eq!(
        parser
            .template("why so serious??".into(), &Default::default())
            .unwrap(),
        "why so serious?"
    );
}

#[test]
fn prompt_gathering() {
    let parser = PromptParser(PromptCollection(prompts()));

    assert_eq!(
        *parser
            .prompts("?greeting?".into())
            .unwrap()
            .iter()
            .next()
            .unwrap(),
        prompts()[0]
    );

    assert_eq!(
        *parser
            .prompts("also a ?greeting? woo".into())
            .unwrap()
            .iter()
            .next()
            .unwrap(),
        prompts()[0]
    );

    // items should appear in order
    assert_eq!(
        *parser
            .prompts("here are three items: ?file? and ?shoesize? and ?greeting? woo".into())
            .unwrap(),
        vec![
            prompts()[2].clone(),
            prompts()[1].clone(),
            prompts()[0].clone()
        ]
    );

    assert_eq!(*parser.prompts("??".into()).unwrap(), Vec::<Prompt>::new());
    assert_eq!(*parser.prompts("?".into()).unwrap(), Vec::<Prompt>::new());
    assert_eq!(*parser.prompts("?test".into()).unwrap(), Vec::<Prompt>::new());
    assert_eq!(
        *parser.prompts("?file ?shoesize".into()).unwrap(),
        Vec::<Prompt>::new()
    );
    assert_eq!(
        *parser.prompts("why so serious?".into()).unwrap(),
        Vec::<Prompt>::new()
    );
}

#[test]
fn input_conversion() {
    assert_eq!("20", Input::Integer(20).to_string());
    assert_eq!("-20", Input::SignedInteger(-20).to_string());
    assert_eq!(
        "hello, world!",
        Input::String("hello, world!".into()).to_string()
    );
}

#[test]
fn response_registry_round_trip() {
    let mut registry = ResponseRegistry::new("/tmp/trunk-test-registry".to_string());
    assert!(registry.get("plex").is_err());
    let responses = PromptResponses(vec![PromptResponse {
        template: "greeting".into(),
        input: Input::String("hi".into()),
    }]);
    registry.set("plex", responses.clone());
    assert_eq!(*registry.get("plex").unwrap(), responses);
}
