use pikaboo::consts::interact;
use pikaboo::events::interaction_create::{
    command_extractor, component_extractor, find_input, modal_extractor, CommandData,
    ComponentType, ConfirmChangeNickname, ConfirmOrder, Interaction, InteractionData,
    InteractionError, InteractionItem, InteractionType, MessageComponentData, ModalData,
    ModalInput, OrderItem,
};

fn command(name: &str, options: &[&str]) -> Interaction {
    Interaction {
        kind: InteractionType::ApplicationCommand,
        data: Some(InteractionData::ApplicationCommand(CommandData {
            name: name.to_string(),
            options: options.iter().map(|option| option.to_string()).collect(),
        })),
    }
}

fn component(component_type: ComponentType, custom_id: &str, values: &[&str]) -> Interaction {
    Interaction {
        kind: InteractionType::MessageComponent,
        data: Some(InteractionData::MessageComponent(MessageComponentData {
            component_type,
            custom_id: custom_id.to_string(),
            values: values.iter().map(|value| value.to_string()).collect(),
        })),
    }
}

fn field(custom_id: &str, value: Option<&str>) -> ModalInput {
    ModalInput { custom_id: custom_id.to_string(), value: value.map(|value| value.to_string()) }
}

fn modal(custom_id: &str, rows: Vec<Vec<ModalInput>>) -> Interaction {
    Interaction {
        kind: InteractionType::ModalSubmit,
        data: Some(InteractionData::ModalSubmit(ModalData {
            custom_id: custom_id.to_string(),
            components: rows,
        })),
    }
}

#[test]
fn confirm_order_stands_on_okay_alone() {
    assert_eq!(
        ConfirmOrder::new("okay", OrderItem::Nickname),
        ConfirmOrder { okay: true, item: OrderItem::Nickname }
    );
    for answer in ["", "Okay", "okay ", " okay", "ok", "yes", "okayokay"] {
        let order = ConfirmOrder::new(answer, OrderItem::BlindBox);
        assert!(!order.okay, "{answer:?}");
        assert_eq!(order.item, OrderItem::BlindBox);
    }
}

#[test]
fn commands_name_their_service() {
    assert_eq!(InteractionItem::try_from(command("pikaboo", &[])), Ok(InteractionItem::Menu));
    assert_eq!(
        InteractionItem::try_from(command("pikaboo", &["shop"])),
        Ok(InteractionItem::Menu)
    );
    assert_eq!(
        InteractionItem::try_from(command("pikaboo-quick", &["inventory"])),
        Ok(InteractionItem::Inventory)
    );
    assert_eq!(
        InteractionItem::try_from(command("pikaboo-quick", &["shop", "inventory"])),
        Ok(InteractionItem::Shop)
    );
    assert_eq!(
        InteractionItem::try_from(command("pikaboo-quick", &["customrole"])),
        Ok(InteractionItem::CustomRole)
    );
    assert_eq!(
        InteractionItem::try_from(command("pikaboo-mod", &[])),
        Ok(InteractionItem::Unimplemented)
    );
    assert_eq!(
        InteractionItem::try_from(command("anything", &["shop"])),
        Ok(InteractionItem::Unimplemented)
    );
}

#[test]
fn quick_command_needs_a_known_subcommand() {
    let error = command_extractor(command("pikaboo-quick", &[])).unwrap_err();
    assert_eq!(error, InteractionError::SubcommandNeeded { command: "pikaboo-quick".to_string() });
    assert_eq!(error.message(), "Subcommand is needed: pikaboo-quick");

    let error = command_extractor(command("pikaboo-quick", &["zones", "shop"])).unwrap_err();
    assert_eq!(
        error,
        InteractionError::UnknownSubcommand {
            command: "pikaboo-quick".to_string(),
            name: "zones".to_string()
        }
    );
    assert_eq!(error.message(), "Unknown Subcommand: pikaboo-quick zones");
}

#[test]
fn kind_and_data_must_agree() {
    let mut stray = component(ComponentType::Button, "shop", &[]);
    stray.kind = InteractionType::ApplicationCommand;
    let error = InteractionItem::try_from(stray).unwrap_err();
    assert_eq!(error, InteractionError::CommandWithoutData);
    assert_eq!(error.message(), "Command without data");

    let mut stray = command("pikaboo", &[]);
    stray.kind = InteractionType::MessageComponent;
    let error = InteractionItem::try_from(stray).unwrap_err();
    assert_eq!(error, InteractionError::ComponentWithoutData);
    assert_eq!(error.message(), "Component without data");

    let stray = Interaction { kind: InteractionType::ModalSubmit, data: None };
    let error = InteractionItem::try_from(stray).unwrap_err();
    assert_eq!(error, InteractionError::ModalWithoutData);
    assert_eq!(error.message(), "Modal without data");
}

#[test]
fn other_kinds_are_abnormal() {
    for kind in
        [InteractionType::Ping, InteractionType::ApplicationCommandAutocomplete, InteractionType::Unknown]
    {
        let mut interaction = command("pikaboo", &[]);
        interaction.kind = kind;
        assert_eq!(
            InteractionItem::try_from(interaction),
            Ok(InteractionItem::UnimplementedAbnormal)
        );
        assert_eq!(
            InteractionItem::try_from(Interaction { kind, data: None }),
            Ok(InteractionItem::UnimplementedAbnormal)
        );
    }
}

#[test]
fn buttons_name_their_service() {
    let cases = [
        (interact::INVENTORY, InteractionItem::Inventory),
        (interact::SHOP, InteractionItem::Shop),
        (interact::CUSTOMROLE, InteractionItem::CustomRole),
        (interact::CUSTOMROLE_SUBSCRIBE, InteractionItem::CustomRoleSubscribe),
        (interact::CUSTOMROLE_UNSUBSCRIBE, InteractionItem::CustomRoleUnsubscribe),
        (interact::GAMES, InteractionItem::Unimplemented),
        (interact::SHOP_NICKNAME, InteractionItem::Unimplemented),
        ("", InteractionItem::Unimplemented),
    ];
    for (custom_id, expected) in cases {
        assert_eq!(
            component_extractor(component(ComponentType::Button, custom_id, &[])),
            Ok(expected),
            "{custom_id:?}"
        );
    }
}

#[test]
fn menus_name_their_service_by_the_first_choice() {
    let cases = [
        ("shop", "customrole-shop", InteractionItem::ShopCustomRole),
        ("shop", "nickname-shop", InteractionItem::ShopNickname),
        ("shop", "energyboost-shop", InteractionItem::ShopEnergyBoost),
        ("shop", "blindbox-shop", InteractionItem::ShopBlindBox),
        ("shop", "nickname-inventory", InteractionItem::Unimplemented),
        ("inventory", "customrole-inventory", InteractionItem::InventoryCustomRole),
        ("inventory", "nickname-inventory", InteractionItem::InventoryNickname),
        ("inventory", "nickname-shop", InteractionItem::Unimplemented),
        ("customrole", "customrole-shop", InteractionItem::Unimplemented),
    ];
    for (custom_id, choice, expected) in cases {
        assert_eq!(
            InteractionItem::try_from(component(
                ComponentType::TextSelectMenu,
                custom_id,
                &[choice, "blindbox-shop"]
            )),
            Ok(expected),
            "{custom_id:?} {choice:?}"
        );
    }
    assert_eq!(
        component_extractor(component(ComponentType::Other, "shop", &["customrole-shop"])),
        Ok(InteractionItem::Unimplemented)
    );
}

#[test]
fn order_modals_carry_the_answer() {
    let cases = [
        ("customrole-order-confirm", OrderItem::CustomRole),
        ("nickname-order-confirm", OrderItem::Nickname),
        ("energyboost-order-confirm", OrderItem::EnergyBoost),
        ("blindbox-order-confirm", OrderItem::BlindBox),
    ];
    for (custom_id, item) in cases {
        let rows = vec![vec![field("confirm-okay", Some("okay"))]];
        assert_eq!(
            InteractionItem::try_from(modal(custom_id, rows)),
            Ok(InteractionItem::ConfirmOrder(ConfirmOrder { okay: true, item }))
        );
        let rows = vec![vec![field("confirm-okay", Some("no"))]];
        assert_eq!(
            modal_extractor(modal(custom_id, rows)),
            Ok(InteractionItem::ConfirmOrder(ConfirmOrder { okay: false, item }))
        );
    }
}

#[test]
fn modals_without_their_field_are_refused() {
    let error = modal_extractor(modal(
        "nickname-order-confirm",
        vec![vec![field("confirm-okay", None)], vec![field("nickname", Some("okay"))]],
    ))
    .unwrap_err();
    assert_eq!(
        error,
        InteractionError::MissingInput {
            modal: "nickname-order-confirm".to_string(),
            input: "confirm-okay"
        }
    );
    assert_eq!(error.message(), "Modal `nickname-order-confirm` expects to have a `confirm-okay`");

    let error = modal_extractor(modal("nickname-change", Vec::new())).unwrap_err();
    assert_eq!(error.message(), "Modal `nickname-change` expects to have a `nickname`");
}

#[test]
fn nickname_modal_carries_the_nickname() {
    let rows = vec![vec![field("nickname", Some("Pika"))]];
    assert_eq!(
        InteractionItem::try_from(modal("nickname-change", rows)),
        Ok(InteractionItem::ConfirmInventoryNickname(ConfirmChangeNickname {
            nickname: "Pika".to_string()
        }))
    );
    let rows = vec![vec![field("nickname", Some("Pika"))]];
    assert_eq!(modal_extractor(modal("something-else", rows)), Ok(InteractionItem::Unimplemented));
}

#[test]
fn a_row_counts_for_its_last_field_and_later_rows_win() {
    let rows = vec![
        vec![field("nickname", Some("first"))],
        vec![field("nickname", Some("hidden")), field("other", Some("x"))],
        vec![],
        vec![field("other", Some("y")), field("nickname", Some("second"))],
        vec![field("nickname", None)],
    ];
    assert_eq!(find_input(&rows, "nickname"), Some("second".to_string()));
    assert_eq!(find_input(&rows, "other"), Some("x".to_string()));
    assert_eq!(find_input(&rows, "missing"), None);
    assert_eq!(find_input(&Vec::new(), "nickname"), None);
}
