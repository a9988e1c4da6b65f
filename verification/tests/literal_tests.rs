use ue_object_reader::parser::ast::{LinkedTo, Prop, PropValue, Uuid};
use ue_object_reader::parser::literal::{
    kv_list_literal, linked_object_literal, linkedto_list_literal, nsloc_text_literal,
    string_literal, uuid_literal,
};

fn cv(s: &str) -> Vec<char> {
    s.chars().collect()
}

fn rem(s: &str, q: usize) -> String {
    s.chars().skip(q).collect()
}

fn uuid_of(v: u128) -> Uuid {
    Uuid { value: v }
}

#[test]
fn parse_linkedto_list_literal() {
    let expected = vec![
        LinkedTo {
            name: "K2Node_DynamicCast_46".to_string(),
            uuid: uuid_of(0x5EE02C3B480C2249B48954B390C035D6),
        },
        LinkedTo {
            name: "K2Node_CallFunction_1093".to_string(),
            uuid: uuid_of(0x0710E8C14EFFED0DD9E024BCB29F23C3),
        },
    ];
    let input = "(K2Node_DynamicCast_46 5EE02C3B480C2249B48954B390C035D6,K2Node_CallFunction_1093 0710E8C14EFFED0DD9E024BCB29F23C3,)";
    let (q, v) = linkedto_list_literal(&cv(input), 0).unwrap();
    assert_eq!(rem(input, q), "");
    assert_eq!(v, expected);
    let input = "(K2Node_DynamicCast_46 5EE02C3B480C2249B48954B390C035D6,K2Node_CallFunction_1093 0710E8C14EFFED0DD9E024BCB29F23C3)";
    let (q, v) = linkedto_list_literal(&cv(input), 0).unwrap();
    assert_eq!(rem(input, q), "");
    assert_eq!(v, expected);
}

#[test]
fn parse_linked_object_literal() {
    let input = "K2Node_InputAxisEvent_160 FCB984164512320C9D4784B5D1D93263";
    let (q, v) = linked_object_literal(&cv(input), 0).unwrap();
    assert_eq!(rem(input, q), "");
    assert_eq!(
        v,
        LinkedTo {
            name: "K2Node_InputAxisEvent_160".to_string(),
            uuid: uuid_of(0xFCB984164512320C9D4784B5D1D93263),
        }
    );
    let input = "K2Node_DynamicCast_46 5EE02C3B480C2249B48954B390C035D6";
    let (q, v) = linked_object_literal(&cv(input), 0).unwrap();
    assert_eq!(rem(input, q), "");
    assert_eq!(
        v,
        LinkedTo {
            name: "K2Node_DynamicCast_46".to_string(),
            uuid: uuid_of(0x5EE02C3B480C2249B48954B390C035D6),
        }
    );
}

#[test]
fn literal_parse_nsloc_text_literal() {
    let input =
        r#"NSLOCTEXT("UObjectDisplayNames", "Character:CharacterMovement", "Character Movement")"#;
    let (q, v) = nsloc_text_literal(&cv(input), 0).unwrap();
    assert_eq!(rem(input, q), "");
    assert_eq!(
        v,
        (
            "UObjectDisplayNames".to_string(),
            "Character:CharacterMovement".to_string(),
            "Character Movement".to_string()
        )
    );
}

#[test]
fn literal_parse_kv_list() {
    let sample = r#"(PinId=0E1A655D4333CDC682CF73A1BB84F0FF,PinName="self",PinFriendlyName=NSLOCTEXT("K2Node", "Target", "Target"),PinToolTip="ターゲット\nGameplay Statics オブジェクト参照",PinType.PinSubCategory="",PinType.PinSubCategoryObject=Class'"/Script/Engine.GameplayStatics"',PinType.PinSubCategoryMemberReference=(),PinType.PinValueType=(PinType.ContainerType=None,PinType.bIsReference=False,PinType.PinValueType=(PinType.ContainerType=None,PinType.bIsReference=False)),DefaultObject="/Script/Engine.Default__GameplayStatics",MemberParent=BlueprintGeneratedClass'"/Game/Blueprints/PlayerCharacter.PlayerCharacter_C"',LinkedTo=(K2Node_InputAxisEvent_160 FCB984164512320C9D4784B5D1D93263,),PersistentGuid=00000000000000000000000000000000,bOrphanedPin=True,)"#;
    let (q, v) = kv_list_literal(&cv(sample), 0).unwrap();
    assert_eq!(rem(sample, q), "");
    assert_eq!(
        v,
        vec![
            Prop {
                key: "PinId".to_owned(),
                value: PropValue::Uuid(uuid_of(0x0E1A655D4333CDC682CF73A1BB84F0FF)),
            },
            Prop {
                key: "PinName".to_owned(),
                value: PropValue::String("self".to_owned()),
            },
            Prop {
                key: "PinFriendlyName".to_owned(),
                value: PropValue::NslocText(
                    "K2Node".to_owned(),
                    "Target".to_owned(),
                    "Target".to_owned()
                ),
            },
            Prop {
                key: "PinToolTip".to_owned(),
                value: PropValue::String("ターゲット\nGameplay Statics オブジェクト参照".to_owned()),
            },
            Prop {
                key: "PinType.PinSubCategory".to_owned(),
                value: PropValue::String("".to_owned()),
            },
            Prop {
                key: "PinType.PinSubCategoryObject".to_owned(),
                value: PropValue::ObjectReference(
                    "Class".to_owned(),
                    "/Script/Engine.GameplayStatics".to_owned()
                ),
            },
            Prop {
                key: "PinType.PinSubCategoryMemberReference".to_owned(),
                value: PropValue::PropList(Vec::new()),
            },
            Prop {
                key: "PinType.PinValueType".to_owned(),
                value: PropValue::PropList(vec![
                    Prop {
                        key: "PinType.ContainerType".to_owned(),
                        value: PropValue::ObjectReference("None".to_owned(), "None".to_owned()),
                    },
                    Prop {
                        key: "PinType.bIsReference".to_owned(),
                        value: PropValue::Boolean(false),
                    },
                    Prop {
                        key: "PinType.PinValueType".to_owned(),
                        value: PropValue::PropList(vec![
                            Prop {
                                key: "PinType.ContainerType".to_owned(),
                                value: PropValue::ObjectReference(
                                    "None".to_owned(),
                                    "None".to_owned()
                                ),
                            },
                            Prop {
                                key: "PinType.bIsReference".to_owned(),
                                value: PropValue::Boolean(false),
                            },
                        ]),
                    },
                ]),
            },
            Prop {
                key: "DefaultObject".to_owned(),
                value: PropValue::String("/Script/Engine.Default__GameplayStatics".to_owned()),
            },
            Prop {
                key: "MemberParent".to_owned(),
                value: PropValue::ObjectReference(
                    "BlueprintGeneratedClass".to_owned(),
                    "/Game/Blueprints/PlayerCharacter.PlayerCharacter_C".to_owned()
                ),
            },
            Prop {
                key: "LinkedTo".to_owned(),
                value: PropValue::LinkedToList(vec![LinkedTo {
                    name: "K2Node_InputAxisEvent_160".to_owned(),
                    uuid: uuid_of(0xFCB984164512320C9D4784B5D1D93263),
                }]),
            },
            Prop {
                key: "PersistentGuid".to_owned(),
                value: PropValue::Uuid(uuid_of(0x00000000000000000000000000000000)),
            },
            Prop {
                key: "bOrphanedPin".to_owned(),
                value: PropValue::Boolean(true),
            },
        ]
    );
    let (q, v) = kv_list_literal(&cv("()"), 0).unwrap();
    assert_eq!(rem("()", q), "");
    assert_eq!(v, vec![]);
    let input = r#"(MemberName="AddControllerYawInput",bSelfContext=True)"#;
    let (q, v) = kv_list_literal(&cv(input), 0).unwrap();
    assert_eq!(rem(input, q), "");
    assert_eq!(
        v,
        vec![
            Prop {
                key: "MemberName".to_owned(),
                value: PropValue::String("AddControllerYawInput".to_owned()),
            },
            Prop {
                key: "bSelfContext".to_owned(),
                value: PropValue::Boolean(true),
            },
        ]
    );
}

#[test]
fn literal_parse_string_literal() {
    let input = r#""hoge fuga""#;
    let (q, v) = string_literal(&cv(input), 0).unwrap();
    assert_eq!(rem(input, q), "");
    assert_eq!(v, "hoge fuga".to_string());
    let input = r#""hoge\n \r \t\\ \' f\"uga""#;
    let (q, v) = string_literal(&cv(input), 0).unwrap();
    assert_eq!(rem(input, q), "");
    assert_eq!(v, "hoge\n \r \t\\ ' f\"uga".to_string());
    let input = r#""hoge\n \r \t\\ \' f\"uga" piyo"#;
    let (q, v) = string_literal(&cv(input), 0).unwrap();
    assert_eq!(rem(input, q), " piyo");
    assert_eq!(v, "hoge\n \r \t\\ ' f\"uga".to_string());
}

#[test]
fn literal_parse_uuid_literal() {
    let input = "914EEC5D4C41B6D45E6DB79302BCC5BA";
    let (q, v) = uuid_literal(&cv(input), 0).unwrap();
    assert_eq!(rem(input, q), "");
    assert_eq!(v, uuid_of(0x914EEC5D4C41B6D45E6DB79302BCC5BA));
    assert!(uuid_literal(&cv("914EEC5D4C41B6D45E6DB79302BCC5BAFFF"), 0).is_err());
    let input = "49B87A28472C0D6908043885A7306D2A";
    let (q, v) = uuid_literal(&cv(input), 0).unwrap();
    assert_eq!(rem(input, q), "");
    assert_ne!(v, uuid_of(0x914EEC5D4C41B6D45E6DB79302BCC5BA));
    let input = "49B87A28472C0D6908043885A7306D2A,FFF";
    let (q, v) = uuid_literal(&cv(input), 0).unwrap();
    assert_eq!(rem(input, q), ",FFF");
    assert_ne!(v, uuid_of(0x914EEC5D4C41B6D45E6DB79302BCC5BA));
    assert!(uuid_literal(&cv("MMMMMMMMMMMMMMMMMMMMMMMMMMMMC5BA"), 0).is_err());
    assert!(uuid_literal(&cv("49B87A6D2A"), 0).is_err());
}
