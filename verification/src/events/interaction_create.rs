//! An interaction has arrived: what it asks for.
//!
//! An interaction arrives as a slash command, as a press on a component of
//! an earlier message, or as a filled-in modal. The caller copies what it
//! got from the platform into an [`Interaction`]; [`InteractionItem::try_from`]
//! says which of the bot's services is meant.

use crate::consts::interact;
use vstd::prelude::*;
use vstd::string::*;

verus! {

/// The item an order is for.
#[derive(Debug, Clone, Copy, PartialEq, Eq, Structural)]
pub enum OrderItem {
    CustomRole,
    Nickname,
    EnergyBoost,
    BlindBox,
}

/// The answer to the question whether an order stands.
#[derive(Debug, Clone, Copy, PartialEq, Eq, Structural)]
pub struct ConfirmOrder {
    pub okay: bool,
    pub item: OrderItem,
}

impl ConfirmOrder {
    /// The answer `msg` to an order of `item`: the order stands if the
    /// answer is the word `okay`, and on no other answer.
    pub fn new(msg: &str, item: OrderItem) -> (order: ConfirmOrder)
        ensures
            order.okay == (msg@ == "okay"@),
            order.item == item,
    {
        ConfirmOrder { okay: msg.eq("okay"), item }
    }
}

/// The nickname a user asks to be given.
#[derive(Debug, PartialEq, Eq)]
pub struct ConfirmChangeNickname {
    pub nickname: String,
}

/// The service an interaction asks for.
#[derive(Debug, PartialEq, Eq)]
pub enum InteractionItem {
    /// The main menu, with the settings in force and the main choices.
    Menu,
    /// The inventory.
    Inventory,
    /// The user's custom role.
    CustomRole,
    /// The shop.
    Shop,
    /// The purchase of a custom role.
    ShopCustomRole,
    /// The purchase of a nickname.
    ShopNickname,
    /// The purchase of an energy boost.
    ShopEnergyBoost,
    /// The purchase of a blind box.
    ShopBlindBox,
    /// The answer to an order.
    ConfirmOrder(ConfirmOrder),
    /// A new nickname, to be paid for from the inventory.
    ConfirmInventoryNickname(ConfirmChangeNickname),
    /// Renewal of the custom role is switched on.
    CustomRoleSubscribe,
    /// Renewal of the custom role is switched off.
    CustomRoleUnsubscribe,
    /// A change of nickname, chosen in the inventory.
    InventoryNickname,
    /// The user's custom role, chosen in the inventory.
    InventoryCustomRole,
    /// An interaction of the three known kinds that no service answers.
    Unimplemented,
    /// An interaction of any other kind, such as a ping or an autocomplete.
    UnimplementedAbnormal,
}

/// The kind of an interaction.
#[derive(Debug, Clone, Copy, PartialEq, Eq, Structural)]
pub enum InteractionType {
    Ping,
    ApplicationCommand,
    MessageComponent,
    ApplicationCommandAutocomplete,
    ModalSubmit,
    /// A kind that came up after this list was written.
    Unknown,
}

/// The kind of a component.
#[derive(Debug, Clone, Copy, PartialEq, Eq, Structural)]
pub enum ComponentType {
    Button,
    TextSelectMenu,
    /// Any component that is neither a button nor a menu of texts.
    Other,
}

/// A slash command: its name and the names of its options in order.
#[derive(Debug)]
pub struct CommandData {
    pub name: String,
    pub options: Vec<String>,
}

/// A press on a component: the component's kind and id, and for a menu the
/// values chosen.
#[derive(Debug)]
pub struct MessageComponentData {
    pub component_type: ComponentType,
    pub custom_id: String,
    pub values: Vec<String>,
}

/// One field of a modal: its id, and what was entered if anything was.
#[derive(Debug)]
pub struct ModalInput {
    pub custom_id: String,
    pub value: Option<String>,
}

/// A filled-in modal: its id and its rows of fields.
#[derive(Debug)]
pub struct ModalData {
    pub custom_id: String,
    pub components: Vec<Vec<ModalInput>>,
}

/// What an interaction carries.
#[derive(Debug)]
pub enum InteractionData {
    ApplicationCommand(CommandData),
    MessageComponent(MessageComponentData),
    ModalSubmit(ModalData),
}

/// An interaction, as far as the choice of a service depends on it.
#[derive(Debug)]
pub struct Interaction {
    pub kind: InteractionType,
    pub data: Option<InteractionData>,
}

/// Why an interaction names no service.
#[derive(Debug, PartialEq, Eq)]
pub enum InteractionError {
    /// A command came without the data of a command.
    CommandWithoutData,
    /// The command takes a subcommand and came without one.
    SubcommandNeeded { command: String },
    /// The command has no subcommand of this name.
    UnknownSubcommand { command: String, name: String },
    /// A component came without the data of a component.
    ComponentWithoutData,
    /// A modal came without the data of a modal.
    ModalWithoutData,
    /// The modal came without an entry in the field it is read from.
    MissingInput { modal: String, input: &'static str },
}

/// The text of an error.
pub open spec fn error_text(error: InteractionError) -> Seq<char> {
    match error {
        InteractionError::CommandWithoutData => "Command without data"@,
        InteractionError::SubcommandNeeded { command } => "Subcommand is needed: "@ + command@,
        InteractionError::UnknownSubcommand { command, name } => "Unknown Subcommand: "@ + command@
            + " "@ + name@,
        InteractionError::ComponentWithoutData => "Component without data"@,
        InteractionError::ModalWithoutData => "Modal without data"@,
        InteractionError::MissingInput { modal, input } => "Modal `"@ + modal@
            + "` expects to have a `"@ + input@ + "`"@,
    }
}

impl InteractionError {
    /// The error in words.
    pub fn message(&self) -> (text: String)
        ensures
            text@ == error_text(*self),
    {
        match self {
            InteractionError::CommandWithoutData => String::from_str("Command without data"),
            InteractionError::SubcommandNeeded { command } => {
                let mut text = String::from_str("Subcommand is needed: ");
                text.append(command.as_str());
                text
            },
            InteractionError::UnknownSubcommand { command, name } => {
                let mut text = String::from_str("Unknown Subcommand: ");
                text.append(command.as_str());
                text.append(" ");
                text.append(name.as_str());
                text
            },
            InteractionError::ComponentWithoutData => String::from_str("Component without data"),
            InteractionError::ModalWithoutData => String::from_str("Modal without data"),
            InteractionError::MissingInput { modal, input } => {
                let mut text = String::from_str("Modal `");
                text.append(modal.as_str());
                text.append("` expects to have a `");
                text.append(input);
                text.append("`");
                text
            },
        }
    }
}

/// The service that a command asks for.
pub open spec fn command_item(data: CommandData) -> Result<InteractionItem, InteractionError> {
    if data.name@ == interact::PIKABOO@ {
        Ok(InteractionItem::Menu)
    } else if data.name@ == interact::PIKABOO_QUICK@ {
        if data.options@.len() == 0 {
            Err(InteractionError::SubcommandNeeded { command: data.name })
        } else if data.options@[0]@ == interact::INVENTORY@ {
            Ok(InteractionItem::Inventory)
        } else if data.options@[0]@ == interact::SHOP@ {
            Ok(InteractionItem::Shop)
        } else if data.options@[0]@ == interact::CUSTOMROLE@ {
            Ok(InteractionItem::CustomRole)
        } else {
            Err(InteractionError::UnknownSubcommand { command: data.name, name: data.options@[0] })
        }
    } else {
        Ok(InteractionItem::Unimplemented)
    }
}

/// The service that a button asks for.
pub open spec fn button_item(custom_id: Seq<char>) -> InteractionItem {
    if custom_id == interact::INVENTORY@ {
        InteractionItem::Inventory
    } else if custom_id == interact::SHOP@ {
        InteractionItem::Shop
    } else if custom_id == interact::CUSTOMROLE@ {
        InteractionItem::CustomRole
    } else if custom_id == interact::CUSTOMROLE_SUBSCRIBE@ {
        InteractionItem::CustomRoleSubscribe
    } else if custom_id == interact::CUSTOMROLE_UNSUBSCRIBE@ {
        InteractionItem::CustomRoleUnsubscribe
    } else {
        InteractionItem::Unimplemented
    }
}

/// The service that the first value chosen in a menu asks for.
pub open spec fn menu_item(custom_id: Seq<char>, choice: Seq<char>) -> InteractionItem {
    if custom_id == interact::SHOP@ {
        if choice == interact::SHOP_CUSTOMROLE@ {
            InteractionItem::ShopCustomRole
        } else if choice == interact::SHOP_NICKNAME@ {
            InteractionItem::ShopNickname
        } else if choice == interact::SHOP_ENERGYBOOST@ {
            InteractionItem::ShopEnergyBoost
        } else if choice == interact::SHOP_BLINDBOX@ {
            InteractionItem::ShopBlindBox
        } else {
            InteractionItem::Unimplemented
        }
    } else if custom_id == interact::INVENTORY@ {
        if choice == interact::INVENTORY_CUSTOMROLE@ {
            InteractionItem::InventoryCustomRole
        } else if choice == interact::INVENTORY_NICKNAME@ {
            InteractionItem::InventoryNickname
        } else {
            InteractionItem::Unimplemented
        }
    } else {
        InteractionItem::Unimplemented
    }
}

/// A menu of texts always comes with the value that was chosen.
pub open spec fn has_choice(data: MessageComponentData) -> bool {
    data.component_type == ComponentType::TextSelectMenu ==> data.values@.len() > 0
}

/// The service that a press on a component asks for.
pub open spec fn component_item(data: MessageComponentData) -> InteractionItem {
    match data.component_type {
        ComponentType::Button => button_item(data.custom_id@),
        ComponentType::TextSelectMenu => menu_item(data.custom_id@, data.values@[0]@),
        ComponentType::Other => InteractionItem::Unimplemented,
    }
}

/// What was entered under `id`. A row counts for its last field, and only
/// if something was entered there; of two rows that count for the same id
/// the later one is read.
pub open spec fn input_of(rows: Seq<Vec<ModalInput>>, id: Seq<char>) -> Option<String>
    decreases rows.len(),
{
    if rows.len() == 0 {
        None
    } else {
        let row = rows.last()@;
        if row.len() > 0 && row.last().value is Some && row.last().custom_id@ == id {
            row.last().value
        } else {
            input_of(rows.drop_last(), id)
        }
    }
}

/// The item that the modal of this id confirms the order of.
pub open spec fn ordered_item(custom_id: Seq<char>) -> Option<OrderItem> {
    if custom_id == interact::CONFIRM_ORDER_CUSTOMROLE@ {
        Some(OrderItem::CustomRole)
    } else if custom_id == interact::CONFIRM_ORDER_NICKNAME@ {
        Some(OrderItem::Nickname)
    } else if custom_id == interact::CONFIRM_ORDER_ENERGYBOOST@ {
        Some(OrderItem::EnergyBoost)
    } else if custom_id == interact::CONFIRM_ORDER_BLINDBOX@ {
        Some(OrderItem::BlindBox)
    } else {
        None
    }
}

/// The service that a filled-in modal asks for, or the field it lacks.
pub open spec fn modal_item(data: ModalData) -> Result<InteractionItem, InteractionError> {
    match ordered_item(data.custom_id@) {
        Some(item) => match input_of(data.components@, interact::CONFIRM_OKAY@) {
            Some(answer) => Ok(
                InteractionItem::ConfirmOrder(
                    ConfirmOrder { okay: answer@ == "okay"@, item },
                ),
            ),
            None => Err(
                InteractionError::MissingInput {
                    modal: data.custom_id,
                    input: interact::CONFIRM_OKAY,
                },
            ),
        },
        None => if data.custom_id@ == interact::CHANGE_NICKNAME@ {
            match input_of(data.components@, interact::NICKNAME@) {
                Some(nickname) => Ok(
                    InteractionItem::ConfirmInventoryNickname(ConfirmChangeNickname { nickname }),
                ),
                None => Err(
                    InteractionError::MissingInput {
                        modal: data.custom_id,
                        input: interact::NICKNAME,
                    },
                ),
            }
        } else {
            Ok(InteractionItem::Unimplemented)
        },
    }
}

/// The service that an interaction asks for.
pub open spec fn interaction_item(interaction: Interaction) -> Result<
    InteractionItem,
    InteractionError,
> {
    match interaction.kind {
        InteractionType::ApplicationCommand => match interaction.data {
            Some(InteractionData::ApplicationCommand(data)) => command_item(data),
            _ => Err(InteractionError::CommandWithoutData),
        },
        InteractionType::MessageComponent => match interaction.data {
            Some(InteractionData::MessageComponent(data)) => Ok(component_item(data)),
            _ => Err(InteractionError::ComponentWithoutData),
        },
        InteractionType::ModalSubmit => match interaction.data {
            Some(InteractionData::ModalSubmit(data)) => modal_item(data),
            _ => Err(InteractionError::ModalWithoutData),
        },
        _ => Ok(InteractionItem::UnimplementedAbnormal),
    }
}

/// An interaction whose menu, if it is one, comes with the value chosen.
pub open spec fn well_formed(interaction: Interaction) -> bool {
    interaction.kind == InteractionType::MessageComponent ==> match interaction.data {
        Some(InteractionData::MessageComponent(data)) => has_choice(data),
        _ => true,
    }
}

/// The service that a command asks for.
pub fn command_extractor(interaction: Interaction) -> (item: Result<
    InteractionItem,
    InteractionError,
>)
    ensures
        item == match interaction.data {
            Some(InteractionData::ApplicationCommand(data)) => command_item(data),
            _ => Err(InteractionError::CommandWithoutData),
        },
{
    let data = match interaction.data {
        Some(InteractionData::ApplicationCommand(data)) => data,
        _ => return Err(InteractionError::CommandWithoutData),
    };
    if data.name.as_str().eq(interact::PIKABOO) {
        Ok(InteractionItem::Menu)
    } else if data.name.as_str().eq(interact::PIKABOO_QUICK) {
        if data.options.len() == 0 {
            return Err(InteractionError::SubcommandNeeded { command: data.name });
        }
        let name = data.options[0].as_str();
        if name.eq(interact::INVENTORY) {
            Ok(InteractionItem::Inventory)
        } else if name.eq(interact::SHOP) {
            Ok(InteractionItem::Shop)
        } else if name.eq(interact::CUSTOMROLE) {
            Ok(InteractionItem::CustomRole)
        } else {
            let name = data.options[0].clone();
            Err(InteractionError::UnknownSubcommand { command: data.name, name })
        }
    } else {
        Ok(InteractionItem::Unimplemented)
    }
}

/// The service that a press on a component asks for.
pub fn component_extractor(interaction: Interaction) -> (item: Result<
    InteractionItem,
    InteractionError,
>)
    requires
        interaction.data matches Some(InteractionData::MessageComponent(data)) ==> has_choice(data),
    ensures
        item == match interaction.data {
            Some(InteractionData::MessageComponent(data)) => Ok::<
                InteractionItem,
                InteractionError,
            >(component_item(data)),
            _ => Err(InteractionError::ComponentWithoutData),
        },
{
    let data = match interaction.data {
        Some(InteractionData::MessageComponent(data)) => data,
        _ => return Err(InteractionError::ComponentWithoutData),
    };
    let custom_id = data.custom_id.as_str();
    Ok(
        match data.component_type {
            ComponentType::Button => {
                if custom_id.eq(interact::INVENTORY) {
                    InteractionItem::Inventory
                } else if custom_id.eq(interact::SHOP) {
                    InteractionItem::Shop
                } else if custom_id.eq(interact::CUSTOMROLE) {
                    InteractionItem::CustomRole
                } else if custom_id.eq(interact::CUSTOMROLE_SUBSCRIBE) {
                    InteractionItem::CustomRoleSubscribe
                } else if custom_id.eq(interact::CUSTOMROLE_UNSUBSCRIBE) {
                    InteractionItem::CustomRoleUnsubscribe
                } else {
                    InteractionItem::Unimplemented
                }
            },
            ComponentType::TextSelectMenu => {
                let choice = data.values[0].as_str();
                if custom_id.eq(interact::SHOP) {
                    if choice.eq(interact::SHOP_CUSTOMROLE) {
                        InteractionItem::ShopCustomRole
                    } else if choice.eq(interact::SHOP_NICKNAME) {
                        InteractionItem::ShopNickname
                    } else if choice.eq(interact::SHOP_ENERGYBOOST) {
                        InteractionItem::ShopEnergyBoost
                    } else if choice.eq(interact::SHOP_BLINDBOX) {
                        InteractionItem::ShopBlindBox
                    } else {
                        InteractionItem::Unimplemented
                    }
                } else if custom_id.eq(interact::INVENTORY) {
                    if choice.eq(interact::INVENTORY_CUSTOMROLE) {
                        InteractionItem::InventoryCustomRole
                    } else if choice.eq(interact::INVENTORY_NICKNAME) {
                        InteractionItem::InventoryNickname
                    } else {
                        InteractionItem::Unimplemented
                    }
                } else {
                    InteractionItem::Unimplemented
                }
            },
            ComponentType::Other => InteractionItem::Unimplemented,
        },
    )
}

/// What was entered in the modal under `id`.
pub fn find_input(rows: &Vec<Vec<ModalInput>>, id: &str) -> (entered: Option<String>)
    ensures
        entered == input_of(rows@, id@),
{
    let mut i: usize = rows.len();
    assert(rows@.take(i as int) =~= rows@);
    while i > 0
        invariant
            0 <= i <= rows.len(),
            input_of(rows@, id@) == input_of(rows@.take(i as int), id@),
        decreases i,
    {
        let row = &rows[i - 1];
        proof {
            assert(rows@.take(i as int).last() == rows@[i - 1]);
            assert(rows@.take(i as int).drop_last() =~= rows@.take(i - 1));
        }
        if row.len() > 0 {
            let field = &row[row.len() - 1];
            if let Some(value) = &field.value {
                if field.custom_id.as_str().eq(id) {
                    return Some(value.clone());
                }
            }
        }
        i = i - 1;
    }
    assert(rows@.take(0) =~= Seq::<Vec<ModalInput>>::empty());
    None
}

/// The service that a filled-in modal asks for.
pub fn modal_extractor(interaction: Interaction) -> (item: Result<
    InteractionItem,
    InteractionError,
>)
    ensures
        item == match interaction.data {
            Some(InteractionData::ModalSubmit(data)) => modal_item(data),
            _ => Err(InteractionError::ModalWithoutData),
        },
{
    let data = match interaction.data {
        Some(InteractionData::ModalSubmit(data)) => data,
        _ => return Err(InteractionError::ModalWithoutData),
    };
    let custom_id = data.custom_id.as_str();
    let ordered = if custom_id.eq(interact::CONFIRM_ORDER_CUSTOMROLE) {
        Some(OrderItem::CustomRole)
    } else if custom_id.eq(interact::CONFIRM_ORDER_NICKNAME) {
        Some(OrderItem::Nickname)
    } else if custom_id.eq(interact::CONFIRM_ORDER_ENERGYBOOST) {
        Some(OrderItem::EnergyBoost)
    } else if custom_id.eq(interact::CONFIRM_ORDER_BLINDBOX) {
        Some(OrderItem::BlindBox)
    } else {
        None
    };
    match ordered {
        Some(item) => match find_input(&data.components, interact::CONFIRM_OKAY) {
            Some(answer) => Ok(
                InteractionItem::ConfirmOrder(ConfirmOrder::new(answer.as_str(), item)),
            ),
            None => Err(
                InteractionError::MissingInput {
                    modal: data.custom_id,
                    input: interact::CONFIRM_OKAY,
                },
            ),
        },
        None => {
            if custom_id.eq(interact::CHANGE_NICKNAME) {
                match find_input(&data.components, interact::NICKNAME) {
                    Some(nickname) => Ok(
                        InteractionItem::ConfirmInventoryNickname(
                            ConfirmChangeNickname { nickname },
                        ),
                    ),
                    None => Err(
                        InteractionError::MissingInput {
                            modal: data.custom_id,
                            input: interact::NICKNAME,
                        },
                    ),
                }
            } else {
                Ok(InteractionItem::Unimplemented)
            }
        },
    }
}

impl InteractionItem {
    /// The service that an interaction asks for.
    pub fn try_from(interaction: Interaction) -> (item: Result<InteractionItem, InteractionError>)
        requires
            well_formed(interaction),
        ensures
            item == interaction_item(interaction),
    {
        match interaction.kind {
            InteractionType::ApplicationCommand => command_extractor(interaction),
            InteractionType::MessageComponent => component_extractor(interaction),
            InteractionType::ModalSubmit => modal_extractor(interaction),
            _ => Ok(InteractionItem::UnimplementedAbnormal),
        }
    }
}

} // verus!
