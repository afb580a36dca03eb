//! The tables that modules are given.

use vstd::prelude::*;

verus! {

/// A function that modules may call.
#[derive(Clone, Copy, PartialEq, Eq, Structural)]
pub enum Handler {
    /// Replaces native methods of a class.
    HookJniNativeMethods,
    /// Redirects calls of a function.
    PltHookRegister,
    /// Makes redirected calls take effect.
    PltHookCommit,
    /// Hands a socket to the companion.
    ConnectCompanion,
    /// Takes an option, which changes nothing.
    SetOption,
    /// Gives the module's directory, which is not known.
    GetModuleDir,
    /// Gives the flags of the process, of which none is told.
    GetFlags,
}

/// The first version of the table.
#[derive(Clone, Copy, PartialEq, Eq, Structural)]
pub struct ModuleApiV1 {
    pub handle: usize,
    pub hook_jni_native_methods: Option<Handler>,
    pub plt_hook_register: Option<Handler>,
    pub plt_hook_exclude: Option<Handler>,
    pub plt_hook_commit: Option<Handler>,
    pub connect_companion: Option<Handler>,
    pub set_option: Option<Handler>,
}

/// The second version of the table.
#[derive(Clone, Copy, PartialEq, Eq, Structural)]
pub struct ModuleApiV2 {
    pub v1: ModuleApiV1,
    pub get_module_dir: Option<Handler>,
    pub get_flags: Option<Handler>,
}

/// The fourth version of the table.
#[derive(Clone, Copy, PartialEq, Eq, Structural)]
pub struct ModuleApiV4 {
    pub v2: ModuleApiV2,
    pub plt_hook_register_v4: Option<Handler>,
    pub plt_hook_commit_v4: Option<Handler>,
    pub exempt_fd: Option<Handler>,
}

/// The first version, empty.
pub open spec fn empty_v1() -> ModuleApiV1 {
    ModuleApiV1 {
        handle: 0,
        hook_jni_native_methods: None,
        plt_hook_register: None,
        plt_hook_exclude: None,
        plt_hook_commit: None,
        connect_companion: None,
        set_option: None,
    }
}

/// The first version, filled for a library.
pub open spec fn filled_v1(handle: usize) -> ModuleApiV1 {
    ModuleApiV1 {
        handle,
        hook_jni_native_methods: Some(Handler::HookJniNativeMethods),
        plt_hook_register: Some(Handler::PltHookRegister),
        plt_hook_exclude: None,
        plt_hook_commit: Some(Handler::PltHookCommit),
        connect_companion: Some(Handler::ConnectCompanion),
        set_option: Some(Handler::SetOption),
    }
}

/// The second version, filled for a library.
pub open spec fn filled_v2(handle: usize) -> ModuleApiV2 {
    ModuleApiV2 {
        v1: filled_v1(handle),
        get_module_dir: Some(Handler::GetModuleDir),
        get_flags: Some(Handler::GetFlags),
    }
}

/// The fourth version, filled for a library.
pub open spec fn filled_v4(handle: usize) -> ModuleApiV4 {
    ModuleApiV4 {
        v2: filled_v2(handle),
        plt_hook_register_v4: Some(Handler::PltHookRegister),
        plt_hook_commit_v4: Some(Handler::PltHookCommit),
        exempt_fd: None,
    }
}

impl Default for ModuleApiV1 {
    fn default() -> (r: ModuleApiV1)
        ensures
            r == empty_v1(),
    {
        ModuleApiV1 {
            handle: 0,
            hook_jni_native_methods: None,
            plt_hook_register: None,
            plt_hook_exclude: None,
            plt_hook_commit: None,
            connect_companion: None,
            set_option: None,
        }
    }
}

impl Default for ModuleApiV2 {
    fn default() -> (r: ModuleApiV2)
        ensures
            r == (ModuleApiV2 { v1: empty_v1(), get_module_dir: None, get_flags: None }),
    {
        ModuleApiV2 { v1: ModuleApiV1::default(), get_module_dir: None, get_flags: None }
    }
}

impl Default for ModuleApiV4 {
    fn default() -> (r: ModuleApiV4)
        ensures
            r == (ModuleApiV4 {
                v2: ModuleApiV2 { v1: empty_v1(), get_module_dir: None, get_flags: None },
                plt_hook_register_v4: None,
                plt_hook_commit_v4: None,
                exempt_fd: None,
            }),
    {
        ModuleApiV4 {
            v2: ModuleApiV2::default(),
            plt_hook_register_v4: None,
            plt_hook_commit_v4: None,
            exempt_fd: None,
        }
    }
}

impl ModuleApiV1 {
    /// Fills a table for a library.
    pub fn populate(table: &mut ModuleApiV1, handle: usize)
        ensures
            *final(table) == filled_v1(handle),
    {
        table.handle = handle;
        table.hook_jni_native_methods = Some(Handler::HookJniNativeMethods);
        table.plt_hook_register = Some(Handler::PltHookRegister);
        table.plt_hook_exclude = None;
        table.plt_hook_commit = Some(Handler::PltHookCommit);
        table.connect_companion = Some(Handler::ConnectCompanion);
        table.set_option = Some(Handler::SetOption);
    }
}

impl ModuleApiV2 {
    /// Fills a table for a library.
    pub fn populate(table: &mut ModuleApiV2, handle: usize)
        ensures
            *final(table) == filled_v2(handle),
    {
        ModuleApiV1::populate(&mut table.v1, handle);
        table.get_module_dir = Some(Handler::GetModuleDir);
        table.get_flags = Some(Handler::GetFlags);
    }
}

impl ModuleApiV4 {
    /// Fills a table for a library.
    pub fn populate(table: &mut ModuleApiV4, handle: usize)
        ensures
            *final(table) == filled_v4(handle),
    {
        ModuleApiV2::populate(&mut table.v2, handle);
        table.plt_hook_register_v4 = Some(Handler::PltHookRegister);
        table.plt_hook_commit_v4 = Some(Handler::PltHookCommit);
        table.exempt_fd = None;
    }
}

/// What a module is told.
#[derive(Clone, Copy, PartialEq, Eq, Structural)]
pub enum Moment {
    PreAppSpecialize,
    PostAppSpecialize,
    PreServerSpecialize,
    PostServerSpecialize,
}

/// The functions by which a module is told, by their addresses, 0 for those that
/// it does not have.
#[derive(Clone, Copy, PartialEq, Eq, Structural)]
pub struct ZygiskModuleImpl {
    pub pre_app_specialize: usize,
    pub post_app_specialize: usize,
    pub pre_server_specialize: usize,
    pub post_server_specialize: usize,
}

/// The function by which a module is told.
pub open spec fn callback(t: ZygiskModuleImpl, moment: Moment) -> usize {
    match moment {
        Moment::PreAppSpecialize => t.pre_app_specialize,
        Moment::PostAppSpecialize => t.post_app_specialize,
        Moment::PreServerSpecialize => t.pre_server_specialize,
        Moment::PostServerSpecialize => t.post_server_specialize,
    }
}

/// The function by which a module is told, where it has one.
pub open spec fn find_callback_spec(table: Option<ZygiskModuleImpl>, moment: Moment) -> Option<
    usize,
> {
    match table {
        Some(t) => if callback(t, moment) == 0 {
            None
        } else {
            Some(callback(t, moment))
        },
        None => None,
    }
}

/// Finds the function by which a module is told: `table` is `None` where the
/// module has none.
pub fn find_callback(table: Option<ZygiskModuleImpl>, moment: Moment) -> (r: Option<usize>)
    ensures
        match table {
            Some(t) => if callback(t, moment) == 0 {
                r is None
            } else {
                r == Some(callback(t, moment))
            },
            None => r is None,
        },
        r == find_callback_spec(table, moment),
{
    match table {
        Some(t) => {
            let f: usize = match moment {
                Moment::PreAppSpecialize => t.pre_app_specialize,
                Moment::PostAppSpecialize => t.post_app_specialize,
                Moment::PreServerSpecialize => t.pre_server_specialize,
                Moment::PostServerSpecialize => t.post_server_specialize,
            };
            if f == 0 {
                None
            } else {
                Some(f)
            }
        },
        None => None,
    }
}

/// Tells whether native methods were replaced, from what the system returned.
pub fn natives_replaced(ret: i32) -> (r: bool)
    ensures
        r == (ret >= 0),
{
    ret >= 0
}

/// Each version of the table holds the earlier ones, filled for the same library.
/// In the first, every function is in its own place and none is given for
/// excluding calls; the fourth repeats those that redirect calls, and none is
/// given for descriptors.
pub proof fn law_tables_are_filled(handle: usize)
    ensures
        ({
            let t = filled_v4(handle);
            let f = t.v2.v1;
            &&& t.v2 == filled_v2(handle)
            &&& f == filled_v1(handle)
            &&& f.handle == handle
            &&& f.hook_jni_native_methods == Some(Handler::HookJniNativeMethods)
            &&& f.plt_hook_register == Some(Handler::PltHookRegister)
            &&& f.plt_hook_commit == Some(Handler::PltHookCommit)
            &&& f.connect_companion == Some(Handler::ConnectCompanion)
            &&& f.set_option == Some(Handler::SetOption)
            &&& t.v2.get_module_dir == Some(Handler::GetModuleDir)
            &&& t.v2.get_flags == Some(Handler::GetFlags)
            &&& t.plt_hook_register_v4 == f.plt_hook_register
            &&& t.plt_hook_commit_v4 == f.plt_hook_commit
            &&& f.plt_hook_exclude is None
            &&& t.exempt_fd is None
        }),
        empty_v1().handle == 0,
        empty_v1().hook_jni_native_methods is None,
        empty_v1().plt_hook_register is None,
        empty_v1().plt_hook_exclude is None,
        empty_v1().plt_hook_commit is None,
        empty_v1().connect_companion is None,
        empty_v1().set_option is None,
{
}

/// A module is told of each moment by its own function for it; where that is at 0,
/// or the module has no table, it is not told.
pub proof fn law_modules_are_told(a: usize, b: usize, c: usize, d: usize, moment: Moment)
    requires
        a != 0,
        b != 0,
        c != 0,
        d != 0,
    ensures
        ({
            let t = Some(
                ZygiskModuleImpl {
                    pre_app_specialize: a,
                    post_app_specialize: b,
                    pre_server_specialize: c,
                    post_server_specialize: d,
                },
            );
            &&& find_callback_spec(t, Moment::PreAppSpecialize) == Some(a)
            &&& find_callback_spec(t, Moment::PostAppSpecialize) == Some(b)
            &&& find_callback_spec(t, Moment::PreServerSpecialize) == Some(c)
            &&& find_callback_spec(t, Moment::PostServerSpecialize) == Some(d)
        }),
        find_callback_spec(
            Some(
                ZygiskModuleImpl {
                    pre_app_specialize: 0,
                    post_app_specialize: 0,
                    pre_server_specialize: 0,
                    post_server_specialize: 0,
                },
            ),
            moment,
        ) is None,
        find_callback_spec(None, moment) is None,
{
}

} // verus!
